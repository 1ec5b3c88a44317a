//! Json stuff
//!
//! The records of the LX API, as plain values. Reading them from JSON is
//! done outside the library; the conversions between codes and values are
//! here.

use crate::ledgerx::contract::ContractId;
use crate::text::{decimal, push_decimal, push_str, string_from_chars};
use crate::units::{Price, Underlying, UtcTime};
use vstd::prelude::*;

verus! {

/// The type of the derivative
#[derive(Copy, Clone, PartialEq, Eq, Debug, Structural)]
pub enum DerivativeType {
    DayAheadSwap,
    FutureContract,
    OptionsContract,
}

/// Value of the "type" field
#[derive(Copy, Clone, PartialEq, Eq, Debug, Structural)]
pub enum Type {
    Put,
    Call,
}

/// Action report status codes
#[derive(Copy, Clone, PartialEq, Eq, Debug, Structural)]
pub enum StatusType {
    Inserted,
    CrossTrade,
    NotFilled,
    Cancelled,
    CancelledAndReplaced,
    MessageAcknowledged,
    ContractNotFound,
    OrderIdNotFound,
    OrderIdInvalid,
    OrderRejected,
    InsufficientCollateral,
    ContractExpired,
    PriceThresholdExceeded,
    ContractNotActive,
    InvalidBlockSize,
}

/// The status type of a code, if it is a known one
pub open spec fn status_type_of(x: int) -> Option<StatusType> {
    if x == 200 { Some(StatusType::Inserted) }
    else if x == 201 { Some(StatusType::CrossTrade) }
    else if x == 202 { Some(StatusType::NotFilled) }
    else if x == 203 { Some(StatusType::Cancelled) }
    else if x == 204 { Some(StatusType::CancelledAndReplaced) }
    else if x == 300 { Some(StatusType::MessageAcknowledged) }
    else if x == 600 { Some(StatusType::ContractNotFound) }
    else if x == 601 { Some(StatusType::OrderIdNotFound) }
    else if x == 602 { Some(StatusType::OrderIdInvalid) }
    else if x == 607 { Some(StatusType::OrderRejected) }
    else if x == 609 { Some(StatusType::InsufficientCollateral) }
    else if x == 610 { Some(StatusType::ContractExpired) }
    else if x == 613 { Some(StatusType::PriceThresholdExceeded) }
    else if x == 614 { Some(StatusType::ContractNotActive) }
    else if x == 616 { Some(StatusType::InvalidBlockSize) }
    else { None }
}

/// The message of a refused code: the prefix, then the code in decimal
pub open spec fn unknown_code_text(prefix: Seq<char>, x: int) -> Seq<char> {
    prefix + decimal(x as nat)
}

/// The text of a refused code
fn unknown_code(prefix: &str, x: usize) -> (s: String)
    ensures
        s@ == unknown_code_text(prefix@, x as int),
{
    let mut out: Vec<char> = Vec::new();
    push_str(&mut out, prefix);
    push_decimal(&mut out, x as u128);
    string_from_chars(&out)
}

impl StatusType {
    /// The status type of a numeric code
    pub fn try_from(x: usize) -> (r: Result<Self, String>)
        ensures
            r is Ok <==> status_type_of(x as int) is Some,
            r matches Ok(t) ==> status_type_of(x as int) == Some(t),
            r matches Err(e) ==> e@ == unknown_code_text("unknown status type "@, x as int),
    {
        match x {
            200 => Ok(StatusType::Inserted),
            201 => Ok(StatusType::CrossTrade),
            202 => Ok(StatusType::NotFilled),
            203 => Ok(StatusType::Cancelled),
            204 => Ok(StatusType::CancelledAndReplaced),
            300 => Ok(StatusType::MessageAcknowledged),
            600 => Ok(StatusType::ContractNotFound),
            601 => Ok(StatusType::OrderIdNotFound),
            602 => Ok(StatusType::OrderIdInvalid),
            607 => Ok(StatusType::OrderRejected),
            609 => Ok(StatusType::InsufficientCollateral),
            610 => Ok(StatusType::ContractExpired),
            613 => Ok(StatusType::PriceThresholdExceeded),
            614 => Ok(StatusType::ContractNotActive),
            616 => Ok(StatusType::InvalidBlockSize),
            _ => Err(unknown_code("unknown status type ", x)),
        }
    }
}

/// Reasons given with an action report status
#[derive(Copy, Clone, PartialEq, Eq, Debug, Structural)]
pub enum StatusReason {
    NoReason,
    FullFill,
    CancelledByExchange,
}

/// The status reason of a code, if it is a known one
pub open spec fn status_reason_of(x: int) -> Option<StatusReason> {
    if x == 0 { Some(StatusReason::NoReason) }
    else if x == 52 { Some(StatusReason::FullFill) }
    else if x == 53 { Some(StatusReason::CancelledByExchange) }
    else { None }
}

impl StatusReason {
    /// The status reason of a numeric code
    pub fn try_from(x: usize) -> (r: Result<Self, String>)
        ensures
            r is Ok <==> status_reason_of(x as int) is Some,
            r matches Ok(t) ==> status_reason_of(x as int) == Some(t),
            r matches Err(e) ==> e@ == unknown_code_text("unknown status reason "@, x as int),
    {
        match x {
            0 => Ok(StatusReason::NoReason),
            52 => Ok(StatusReason::FullFill),
            53 => Ok(StatusReason::CancelledByExchange),
            _ => Err(unknown_code("unknown status reason ", x)),
        }
    }
}

/// Copy of the "contract" as returned from the /contracts endpoint
#[derive(Debug)]
pub struct Contract {
    pub id: usize,
    pub active: bool,
    pub underlying_asset: Underlying,
    pub date_exercise: Option<UtcTime>,
    pub date_expires: Option<UtcTime>,
    pub date_live: Option<UtcTime>,
    pub is_call: Option<bool>,
    pub is_next_day: Option<bool>,
    pub is_ecp_only: Option<bool>,
    pub derivative_type: DerivativeType,
    pub strike_price: Option<Price>,
    pub min_increment: usize,
    pub open_interest: Option<usize>,
    pub multiplier: usize,
    pub label: String,
    pub ty: Option<Type>,
    pub name: Option<String>,
}

/// Data feed metadata
#[derive(Debug)]
pub struct DataFeedMeta {
    pub index: usize,
    pub max_index: usize,
    pub manifest_id: [u8; 16],
}

/// Balances of an account: dollars, and bitcoin in satoshis
#[derive(Copy, Clone, Debug)]
pub struct Balances {
    pub usd: Price,
    pub btc_sats: u64,
}

/// All the balances of an account
#[derive(Copy, Clone, Debug)]
pub struct AllBalances {
    pub available_balances: Balances,
    pub deliverable_locked_balances: Balances,
    pub position_locked_balances: Balances,
}

/// A party to a chat
#[derive(Debug)]
pub struct ChatCounterparty {
    pub chat_username: String,
    pub is_online: bool,
}

/// A chat message
#[derive(Debug)]
pub struct MessageInner {
    pub message: String,
    pub counterparty: ChatCounterparty,
    pub initiator: ChatCounterparty,
}

/// The data of a chat message
#[derive(Debug)]
pub struct MessageData {
    pub message: MessageInner,
}

/// An object of the data feed
#[derive(Debug)]
pub enum DataFeedObject {
    ActionReport {
        contract_id: ContractId,
        open_interest: usize,
        mid: [u8; 16],
        order_type: String,
        price: Price,
        size: i64,
        inserted_price: Price,
        inserted_size: i64,
        filled_price: Price,
        filled_size: i64,
        original_price: Price,
        original_size: i64,
        is_ask: bool,
        is_volatile: bool,
        cid: Option<usize>,
        mpid: Option<usize>,
        status_type: StatusType,
        status_reason: Option<StatusReason>,
        clock: u64,
        timestamp: UtcTime,
        inserted_time: UtcTime,
        updated_time: UtcTime,
    },
    UnauthSuccess,
    AuthSuccess,
    ContractAdded { data: crate::ledgerx::contract::Contract },
    ContractRemoved { data: crate::ledgerx::contract::Contract },
    TradeBusted,
    Meta,
    OpenPositionsUpdate,
    CollateralBalanceUpdate { collateral: AllBalances },
    ExposureReports,
    ContactAdded,
    ContactRemoved,
    ContactConnected,
    ContactDisconnected,
    ConversationNewMessage { data: MessageData, conversation_id: usize },
    StateManifest,
    BookTop {
        contract_id: ContractId,
        ask: Price,
        ask_size: i64,
        bid: Price,
        bid_size: i64,
        clock: u64,
    },
    Heartbeat,
}

/// One entry of a book-state message
#[derive(Copy, Clone, Debug)]
pub struct BookState {
    pub clock: u64,
    pub contract_id: ContractId,
    pub mid: [u8; 16],
    pub is_ask: bool,
    pub price: Price,
    pub size: i64,
}

/// The data of a book-state message
#[derive(Debug)]
pub struct BookStateData {
    pub contract_id: ContractId,
    pub book_states: Vec<BookState>,
}

/// A book-state message
#[derive(Debug)]
pub struct BookStateMessage {
    pub data: BookStateData,
}

} // verus!
