//! Market types, message types and the capture record.

use vstd::prelude::*;

use crate::strutil::str_eq;

verus! {

/// Trading-market kind, written as a snake-case token inside file names.
#[derive(Clone, Copy, PartialEq, Eq, Structural, Debug, Hash)]
pub enum MarketType {
    Unknown,
    Spot,
    LinearFuture,
    InverseFuture,
    LinearSwap,
    InverseSwap,
    AmericanOption,
    EuropeanOption,
    QuantoFuture,
    QuantoSwap,
    Move,
    Bvol,
}

/// Capture-message kind, written as a snake-case token inside file names.
#[derive(Clone, Copy, PartialEq, Eq, Structural, Debug, Hash)]
pub enum MessageType {
    Other,
    Trade,
    L2Event,
    L2Snapshot,
    L2TopK,
    L3Event,
    L3Snapshot,
    Bbo,
    Ticker,
    Candlestick,
    FundingRate,
    OpenInterest,
    LongShortRatio,
    TakerVolume,
}

/// One line of an hourly capture file, already decoded from its JSON shape.
#[derive(Clone)]
pub struct Message {
    /// The exchange name, unique for each exchange.
    pub exchange: String,
    /// Market type.
    pub market_type: MarketType,
    /// Message type.
    pub msg_type: MessageType,
    /// Unix timestamp in milliseconds.
    pub received_at: u64,
    /// The original exchange payload.
    pub json: String,
}

/// The token that names a market type inside file names.
pub open spec fn market_token(m: MarketType) -> Seq<char> {
    match m {
        MarketType::Unknown => "unknown"@,
        MarketType::Spot => "spot"@,
        MarketType::LinearFuture => "linear_future"@,
        MarketType::InverseFuture => "inverse_future"@,
        MarketType::LinearSwap => "linear_swap"@,
        MarketType::InverseSwap => "inverse_swap"@,
        MarketType::AmericanOption => "american_option"@,
        MarketType::EuropeanOption => "european_option"@,
        MarketType::QuantoFuture => "quanto_future"@,
        MarketType::QuantoSwap => "quanto_swap"@,
        MarketType::Move => "move"@,
        MarketType::Bvol => "bvol"@,
    }
}

/// The token that names a message type inside file names.
pub open spec fn msg_token(t: MessageType) -> Seq<char> {
    match t {
        MessageType::Other => "other"@,
        MessageType::Trade => "trade"@,
        MessageType::L2Event => "l2_event"@,
        MessageType::L2Snapshot => "l2_snapshot"@,
        MessageType::L2TopK => "l2_topk"@,
        MessageType::L3Event => "l3_event"@,
        MessageType::L3Snapshot => "l3_snapshot"@,
        MessageType::Bbo => "bbo"@,
        MessageType::Ticker => "ticker"@,
        MessageType::Candlestick => "candlestick"@,
        MessageType::FundingRate => "funding_rate"@,
        MessageType::OpenInterest => "open_interest"@,
        MessageType::LongShortRatio => "long_short_ratio"@,
        MessageType::TakerVolume => "taker_volume"@,
    }
}

/// The market type whose token is `s`, if any, tried in declaration order.
pub open spec fn market_from_token(s: Seq<char>) -> Option<MarketType> {
    if s == "unknown"@ {
        Some(MarketType::Unknown)
    } else if s == "spot"@ {
        Some(MarketType::Spot)
    } else if s == "linear_future"@ {
        Some(MarketType::LinearFuture)
    } else if s == "inverse_future"@ {
        Some(MarketType::InverseFuture)
    } else if s == "linear_swap"@ {
        Some(MarketType::LinearSwap)
    } else if s == "inverse_swap"@ {
        Some(MarketType::InverseSwap)
    } else if s == "american_option"@ {
        Some(MarketType::AmericanOption)
    } else if s == "european_option"@ {
        Some(MarketType::EuropeanOption)
    } else if s == "quanto_future"@ {
        Some(MarketType::QuantoFuture)
    } else if s == "quanto_swap"@ {
        Some(MarketType::QuantoSwap)
    } else if s == "move"@ {
        Some(MarketType::Move)
    } else if s == "bvol"@ {
        Some(MarketType::Bvol)
    } else {
        None
    }
}

/// The message type whose token is `s`, if any, tried in declaration order.
pub open spec fn msg_from_token(s: Seq<char>) -> Option<MessageType> {
    if s == "other"@ {
        Some(MessageType::Other)
    } else if s == "trade"@ {
        Some(MessageType::Trade)
    } else if s == "l2_event"@ {
        Some(MessageType::L2Event)
    } else if s == "l2_snapshot"@ {
        Some(MessageType::L2Snapshot)
    } else if s == "l2_topk"@ {
        Some(MessageType::L2TopK)
    } else if s == "l3_event"@ {
        Some(MessageType::L3Event)
    } else if s == "l3_snapshot"@ {
        Some(MessageType::L3Snapshot)
    } else if s == "bbo"@ {
        Some(MessageType::Bbo)
    } else if s == "ticker"@ {
        Some(MessageType::Ticker)
    } else if s == "candlestick"@ {
        Some(MessageType::Candlestick)
    } else if s == "funding_rate"@ {
        Some(MessageType::FundingRate)
    } else if s == "open_interest"@ {
        Some(MessageType::OpenInterest)
    } else if s == "long_short_ratio"@ {
        Some(MessageType::LongShortRatio)
    } else if s == "taker_volume"@ {
        Some(MessageType::TakerVolume)
    } else {
        None
    }
}

impl MarketType {
    /// The snake-case token of this market type.
    pub fn as_str(self) -> (r: &'static str)
        ensures
            r@ == market_token(self),
    {
        match self {
            MarketType::Unknown => "unknown",
            MarketType::Spot => "spot",
            MarketType::LinearFuture => "linear_future",
            MarketType::InverseFuture => "inverse_future",
            MarketType::LinearSwap => "linear_swap",
            MarketType::InverseSwap => "inverse_swap",
            MarketType::AmericanOption => "american_option",
            MarketType::EuropeanOption => "european_option",
            MarketType::QuantoFuture => "quanto_future",
            MarketType::QuantoSwap => "quanto_swap",
            MarketType::Move => "move",
            MarketType::Bvol => "bvol",
        }
    }

    /// Parse a market-type token.
    pub fn from_str(s: &str) -> (r: Option<MarketType>)
        ensures
            r == market_from_token(s@),
    {
        if str_eq(s, "unknown") {
            Some(MarketType::Unknown)
        } else if str_eq(s, "spot") {
            Some(MarketType::Spot)
        } else if str_eq(s, "linear_future") {
            Some(MarketType::LinearFuture)
        } else if str_eq(s, "inverse_future") {
            Some(MarketType::InverseFuture)
        } else if str_eq(s, "linear_swap") {
            Some(MarketType::LinearSwap)
        } else if str_eq(s, "inverse_swap") {
            Some(MarketType::InverseSwap)
        } else if str_eq(s, "american_option") {
            Some(MarketType::AmericanOption)
        } else if str_eq(s, "european_option") {
            Some(MarketType::EuropeanOption)
        } else if str_eq(s, "quanto_future") {
            Some(MarketType::QuantoFuture)
        } else if str_eq(s, "quanto_swap") {
            Some(MarketType::QuantoSwap)
        } else if str_eq(s, "move") {
            Some(MarketType::Move)
        } else if str_eq(s, "bvol") {
            Some(MarketType::Bvol)
        } else {
            None
        }
    }
}

impl MessageType {
    /// The snake-case token of this message type.
    pub fn as_str(self) -> (r: &'static str)
        ensures
            r@ == msg_token(self),
    {
        match self {
            MessageType::Other => "other",
            MessageType::Trade => "trade",
            MessageType::L2Event => "l2_event",
            MessageType::L2Snapshot => "l2_snapshot",
            MessageType::L2TopK => "l2_topk",
            MessageType::L3Event => "l3_event",
            MessageType::L3Snapshot => "l3_snapshot",
            MessageType::Bbo => "bbo",
            MessageType::Ticker => "ticker",
            MessageType::Candlestick => "candlestick",
            MessageType::FundingRate => "funding_rate",
            MessageType::OpenInterest => "open_interest",
            MessageType::LongShortRatio => "long_short_ratio",
            MessageType::TakerVolume => "taker_volume",
        }
    }

    /// Parse a message-type token.
    pub fn from_str(s: &str) -> (r: Option<MessageType>)
        ensures
            r == msg_from_token(s@),
    {
        if str_eq(s, "other") {
            Some(MessageType::Other)
        } else if str_eq(s, "trade") {
            Some(MessageType::Trade)
        } else if str_eq(s, "l2_event") {
            Some(MessageType::L2Event)
        } else if str_eq(s, "l2_snapshot") {
            Some(MessageType::L2Snapshot)
        } else if str_eq(s, "l2_topk") {
            Some(MessageType::L2TopK)
        } else if str_eq(s, "l3_event") {
            Some(MessageType::L3Event)
        } else if str_eq(s, "l3_snapshot") {
            Some(MessageType::L3Snapshot)
        } else if str_eq(s, "bbo") {
            Some(MessageType::Bbo)
        } else if str_eq(s, "ticker") {
            Some(MessageType::Ticker)
        } else if str_eq(s, "candlestick") {
            Some(MessageType::Candlestick)
        } else if str_eq(s, "funding_rate") {
            Some(MessageType::FundingRate)
        } else if str_eq(s, "open_interest") {
            Some(MessageType::OpenInterest)
        } else if str_eq(s, "long_short_ratio") {
            Some(MessageType::LongShortRatio)
        } else if str_eq(s, "taker_volume") {
            Some(MessageType::TakerVolume)
        } else {
            None
        }
    }
}

/// Market kinds whose parsed outputs are suppressed.
pub open spec fn is_blocked_market_spec(m: MarketType) -> bool {
    m == MarketType::QuantoFuture || m == MarketType::QuantoSwap || m == MarketType::Move || m
        == MarketType::Bvol
}

/// Whether parsed outputs are suppressed for this market kind.
pub fn is_blocked_market(market_type: MarketType) -> (r: bool)
    ensures
        r == is_blocked_market_spec(market_type),
{
    match market_type {
        MarketType::QuantoFuture => true,
        MarketType::QuantoSwap => true,
        MarketType::Move => true,
        MarketType::Bvol => true,
        _ => false,
    }
}

} // verus!
