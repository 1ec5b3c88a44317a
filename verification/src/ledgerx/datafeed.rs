//! Data Feed
//!
//! Streaming data from the data feed

use crate::ledgerx::contract::{Contract, ContractId};
use crate::ledgerx::history::lot::hex_byte;
use crate::ledgerx::json;
use crate::units::{Price, UnknownQuantity, UtcTime};
use vstd::prelude::*;

verus! {

/// ID of a customer; provided only for own trades
#[derive(Copy, Clone, PartialEq, Eq, PartialOrd, Ord, Hash, Debug, Structural)]
pub struct CustomerId(pub usize);

/// ID of a specific message, which is the same across an order
/// submission/edit/cancel/etc
#[derive(Copy, Clone, PartialEq, Eq, PartialOrd, Ord, Hash, Debug)]
pub struct MessageId(pub [u8; 16]);

/// The bytes of a sequence in lowercase hex, two digits each
pub open spec fn hex_text(bytes: Seq<u8>) -> Seq<char>
    decreases bytes.len(),
{
    if bytes.len() == 0 {
        Seq::empty()
    } else {
        hex_byte(bytes[0]) + hex_text(bytes.drop_first())
    }
}

/// The bytes in lowercase hex, with `hex_conservative`'s
/// `DisplayHex::to_lower_hex_string`.
///
/// Claims of the crate: each byte, in order, is written as two lowercase
/// hex digits.
#[verifier::external_body]
fn lower_hex(bytes: &[u8; 16]) -> (s: String)
    ensures
        s@ == hex_text(bytes@),
{
    <&[u8] as hex_conservative::DisplayHex>::to_lower_hex_string(&bytes[..])
}

impl CustomerId {
    /// The customer number in decimal
    pub fn to_display_string(&self) -> (s: String)
        ensures
            s@ == crate::text::decimal(self.0 as nat),
    {
        let v = crate::text::decimal_chars(self.0 as u128);
        crate::text::string_from_chars(&v)
    }
}

impl MessageId {
    /// The message ID in lowercase hex
    pub fn to_display_string(&self) -> (s: String)
        ensures
            s@ == hex_text(self.0@),
    {
        lower_hex(&self.0)
    }
}

/// A limit order seen on the data feed
#[derive(Copy, Clone, PartialEq, Eq, Debug)]
pub struct Order {
    /// Number of contracts (negative for asks, positive for bids)
    pub size: UnknownQuantity,
    /// Number of contracts filled
    pub filled_size: UnknownQuantity,
    /// Price at which fill happened
    pub filled_price: Price,
    /// Limit price
    pub price: Price,
    /// ID of the contract being bid/ask on
    pub contract_id: ContractId,
    /// ID of the customer, if provided (only provided for own trades)
    pub customer_id: Option<CustomerId>,
    /// ID of the manifest
    pub message_id: MessageId,
    /// Timestamp that the order occured on
    pub timestamp: UtcTime,
    /// Timestamp that the order was last updated on
    pub updated_timestamp: UtcTime,
}

/// A size as signed by its side: negative for asks
pub open spec fn signed_size(is_ask: bool, size: int) -> int {
    if is_ask { -size } else { size }
}

impl Order {
    /// The order of a book-state entry seen at a given time: the size is
    /// signed by side; fills, fill price and customer are not provided
    pub fn from_book_state(data: json::BookState, time: UtcTime) -> (o: Order)
        requires
            data.size != i64::MIN,
        ensures
            o.size.inner == signed_size(data.is_ask, data.size as int),
            o.filled_size.inner == 0,
            o.filled_price == Price::spec_zero(),
            o.contract_id == data.contract_id,
            o.price == data.price,
            o.customer_id is None,
            o.message_id == MessageId(data.mid),
            o.updated_timestamp == time,
            o.timestamp == time,
    {
        let ba_mult: i64 = if data.is_ask { -1 } else { 1 };
        Order {
            size: UnknownQuantity::from_i64(ba_mult * data.size),
            filled_size: UnknownQuantity::from_i64(0),
            filled_price: Price::zero(),
            contract_id: data.contract_id,
            price: data.price,
            customer_id: None,
            message_id: MessageId(data.mid),
            updated_timestamp: time,
            timestamp: time,
        }
    }
}

/// Object from the data stream
#[derive(Debug)]
pub enum Object {
    /// A customer limit order
    Order(Order),
    /// The top of the book of a contract
    BookTop {
        contract_id: ContractId,
        ask: Price,
        ask_size: i64,
        bid: Price,
        bid_size: i64,
    },
    /// The available balances: bitcoin in satoshis, and dollars
    AvailableBalances {
        btc_sats: u64,
        usd: Price,
    },
    /// A contract was added
    ContractAdded(Contract),
    /// A contract was removed
    ContractRemoved(ContractId),
    /// A chat message
    ChatMessage {
        message: String,
        initiator: String,
        counterparty: String,
        chat_id: usize,
    },
    /// Anything else
    Other,
}

/// Whether the sizes of a data-feed object can be signed by side
pub open spec fn object_convertible(js: json::DataFeedObject) -> bool {
    js matches json::DataFeedObject::ActionReport { size, filled_size, .. } ==> size != i64::MIN && filled_size != i64::MIN
}

impl Object {
    /// The object for a data-feed record: action reports become orders
    /// (sizes signed by side), book tops and available balances are kept,
    /// added and removed contracts and chat messages are passed on, and
    /// everything else is "other".
    pub fn from_json(js: json::DataFeedObject) -> (o: Object)
        requires
            object_convertible(js),
        ensures
            js matches json::DataFeedObject::ActionReport {
                contract_id, price, size, filled_size, filled_price, is_ask, cid, mid, timestamp, updated_time, ..
            } ==> o == Object::Order(Order {
                contract_id,
                customer_id: match cid { Some(c) => Some(CustomerId(c)), None => None },
                message_id: MessageId(mid),
                size: UnknownQuantity { inner: signed_size(is_ask, size as int) as i64 },
                filled_size: UnknownQuantity { inner: signed_size(is_ask, filled_size as int) as i64 },
                filled_price,
                price,
                timestamp,
                updated_timestamp: updated_time,
            }),
            js matches json::DataFeedObject::BookTop { contract_id, ask, ask_size, bid, bid_size, .. }
                ==> o == (Object::BookTop { contract_id, ask, ask_size, bid, bid_size }),
            js matches json::DataFeedObject::CollateralBalanceUpdate { collateral }
                ==> o == (Object::AvailableBalances { btc_sats: collateral.available_balances.btc_sats, usd: collateral.available_balances.usd }),
            js matches json::DataFeedObject::ContractAdded { data } ==> o matches Object::ContractAdded(c) && c@ == data@,
            js matches json::DataFeedObject::ContractRemoved { data } ==> o == Object::ContractRemoved(data@.id),
            js matches json::DataFeedObject::ConversationNewMessage { data, conversation_id } ==> o matches Object::ChatMessage {
                message, initiator, counterparty, chat_id } && message@ == data.message.message@
                && initiator@ == data.message.initiator.chat_username@
                && counterparty@ == data.message.counterparty.chat_username@ && chat_id == conversation_id,
            !(js is ActionReport || js is BookTop || js is CollateralBalanceUpdate || js is ContractAdded
                || js is ContractRemoved || js is ConversationNewMessage) ==> o is Other,
    {
        match js {
            json::DataFeedObject::ActionReport {
                contract_id, price, size, filled_size, filled_price, is_ask, cid, mid, timestamp, updated_time, ..
            } => {
                let ba_mult: i64 = if is_ask { -1 } else { 1 };
                Object::Order(Order {
                    contract_id,
                    customer_id: match cid {
                        Some(c) => Some(CustomerId(c)),
                        None => None,
                    },
                    message_id: MessageId(mid),
                    size: UnknownQuantity::from_i64(ba_mult * size),
                    filled_size: UnknownQuantity::from_i64(ba_mult * filled_size),
                    filled_price,
                    price,
                    timestamp,
                    updated_timestamp: updated_time,
                })
            },
            json::DataFeedObject::BookTop { contract_id, ask, ask_size, bid, bid_size, .. } => {
                Object::BookTop { contract_id, ask, ask_size, bid, bid_size }
            },
            json::DataFeedObject::CollateralBalanceUpdate { collateral } => {
                Object::AvailableBalances {
                    btc_sats: collateral.available_balances.btc_sats,
                    usd: collateral.available_balances.usd,
                }
            },
            json::DataFeedObject::ContractAdded { data } => Object::ContractAdded(data),
            json::DataFeedObject::ContractRemoved { data } => Object::ContractRemoved(data.id()),
            json::DataFeedObject::ConversationNewMessage { data, conversation_id } => {
                Object::ChatMessage {
                    message: data.message.message,
                    initiator: data.message.initiator.chat_username,
                    counterparty: data.message.counterparty.chat_username,
                    chat_id: conversation_id,
                }
            },
            _ => Object::Other,
        }
    }
}

} // verus!
