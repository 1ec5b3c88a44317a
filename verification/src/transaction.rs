//! Bitcoin Transactions
//!
//! A database of known bitcoin transactions, used to match deposits with the
//! coins (lots) they came from.

use crate::text::chars_of;
use vstd::prelude::*;

verus! {

/// A reference to a transaction output
#[derive(Copy, Clone, PartialEq, Eq, Debug)]
pub struct OutPoint {
    /// The transaction, by its txid bytes
    pub txid: [u8; 32],
    /// The output index
    pub vout: u32,
}

/// A transaction output
#[derive(Clone, Debug)]
pub struct TxOut {
    /// Value in satoshis
    pub value: u64,
    /// The output script
    pub script_pubkey: Vec<u8>,
}

/// A transaction: its txid, the outputs its inputs spend, and its outputs
#[derive(Clone, Debug)]
pub struct Transaction {
    pub txid: [u8; 32],
    pub inputs: Vec<OutPoint>,
    pub outputs: Vec<TxOut>,
}

/// The value of a hex digit character, if it is one
pub open spec fn hex_value(c: char) -> Option<int> {
    if '0' <= c && c <= '9' {
        Some(c as int - '0' as int)
    } else if 'a' <= c && c <= 'f' {
        Some(c as int - 'a' as int + 10)
    } else if 'A' <= c && c <= 'F' {
        Some(c as int - 'A' as int + 10)
    } else {
        None
    }
}

/// The bytes of a hex string: defined when the string has an even number
/// of characters, all hex digits (either case)
pub open spec fn hex_bytes(s: Seq<char>) -> Option<Seq<u8>> {
    if s.len() % 2 == 0 && forall|i: int| 0 <= i < s.len() ==> #[trigger] hex_value(s[i]) is Some {
        Some(Seq::new(s.len() / 2, |i: int| (hex_value(s[2 * i])->0 * 16 + hex_value(s[2 * i + 1])->0) as u8))
    } else {
        None
    }
}

/// A transaction decoded from its consensus encoding, as two calls of the
/// `bitcoin` crate give it: `consensus::deserialize` decodes the bytes (or
/// fails), then `Transaction::txid` hashes the decoded transaction. The
/// result holds that txid, the outpoints of the inputs and the outputs
/// (value and script).
pub uninterp spec fn consensus_transaction(bytes: Seq<u8>) -> Option<(Seq<u8>, Seq<(Seq<u8>, u32)>, Seq<(u64, Seq<u8>)>)>;

/// The output script of an address, as two calls of the `bitcoin` crate
/// give it: `Address::from_str` parses the string (or fails), then
/// `Address::script_pubkey` gives the script
pub uninterp spec fn address_script(s: Seq<char>) -> Option<Seq<u8>>;

/// The plain contents of a transaction
pub open spec fn tx_plain(tx: Transaction) -> (Seq<u8>, Seq<(Seq<u8>, u32)>, Seq<(u64, Seq<u8>)>) {
    (
        tx.txid@,
        tx.inputs@.map_values(|o: OutPoint| (o.txid@, o.vout)),
        tx.outputs@.map_values(|o: TxOut| (o.value, o.script_pubkey@)),
    )
}

/// Decodes hex with `bitcoin::hashes::hex::FromHex` for `Vec<u8>`.
///
/// Claims of the crate (`HexIterator`): a string of even length whose
/// characters are all hex digits decodes to one byte per pair of digits;
/// anything else is an error.
#[verifier::external_body]
fn from_hex(s: &str) -> (r: Option<Vec<u8>>)
    ensures
        r is Some <==> hex_bytes(s@) is Some,
        r matches Some(v) ==> hex_bytes(s@) == Some(v@),
{
    <Vec<u8> as bitcoin::hashes::hex::FromHex>::from_hex(s).ok()
}

/// Decodes a transaction with `bitcoin::consensus::deserialize`, and
/// computes its txid with `Transaction::txid`.
///
/// Claims of the crate: the outcome depends on the bytes alone; it is left
/// to the name [consensus_transaction].
#[verifier::external_body]
fn decode_transaction(bytes: &Vec<u8>) -> (r: Option<Transaction>)
    ensures
        r is Some <==> consensus_transaction(bytes@) is Some,
        r matches Some(tx) ==> consensus_transaction(bytes@) == Some(tx_plain(tx)),
{
    let tx: bitcoin::Transaction = bitcoin::consensus::deserialize(bytes).ok()?;
    Some(Transaction {
        txid: <bitcoin::Txid as bitcoin::hashes::Hash>::into_inner(tx.txid()),
        inputs: tx.input.iter().map(|i| OutPoint {
            txid: <bitcoin::Txid as bitcoin::hashes::Hash>::into_inner(i.previous_output.txid),
            vout: i.previous_output.vout,
        }).collect(),
        outputs: tx.output.iter().map(|o| TxOut { value: o.value, script_pubkey: o.script_pubkey.to_bytes() }).collect(),
    })
}

/// The output script of an address, with `bitcoin::Address::from_str` and
/// `Address::script_pubkey`.
///
/// Claims of the crate: the outcome depends on the string alone; it is left
/// to the name [address_script].
#[verifier::external_body]
pub fn script_of_address(s: &str) -> (r: Option<Vec<u8>>)
    ensures
        r is Some <==> address_script(s@) is Some,
        r matches Some(v) ==> address_script(s@) == Some(v@),
{
    match <bitcoin::Address as core::str::FromStr>::from_str(s) {
        Ok(a) => Some(a.script_pubkey().to_bytes()),
        Err(_) => None,
    }
}

/// Errors building the transaction database
#[derive(Debug)]
pub enum TxError {
    /// The string for a txid is not hex
    Hex([u8; 32]),
    /// The bytes for a txid do not decode as a transaction
    Decode([u8; 32]),
    /// The transaction decoded for a txid has another txid
    TxidMismatch([u8; 32]),
}

/// Database of known transactions
#[derive(Debug)]
pub struct Database {
    txs: Vec<Transaction>,
}

/// Whether a transaction decodes from a hex string under the claimed txid
pub open spec fn tx_entry_ok(txid: Seq<u8>, hex: Seq<char>) -> bool {
    hex_bytes(hex) matches Some(b) && consensus_transaction(b) matches Some(t) && t.0 == txid
}

/// The error of a (txid, raw transaction in hex) entry, if any: the hex
/// does not decode, the bytes are no transaction, or its txid differs
pub open spec fn tx_entry_error(txid: [u8; 32], hex: Seq<char>) -> Option<TxError> {
    match hex_bytes(hex) {
        None => Some(TxError::Hex(txid)),
        Some(b) => match consensus_transaction(b) {
            None => Some(TxError::Decode(txid)),
            Some(t) => if t.0 == txid@ { None } else { Some(TxError::TxidMismatch(txid)) },
        },
    }
}

/// Whether `e` is the error of the first bad entry of a list of raw
/// transactions
pub open spec fn first_tx_error(map: Seq<([u8; 32], String)>, e: TxError) -> bool {
    exists|k: int| 0 <= k < map.len() && tx_entry_error(map[k].0, map[k].1@) == Some(e)
        && forall|j: int| 0 <= j < k ==> tx_entry_ok((#[trigger] map[j]).0@, map[j].1@)
}

impl Database {
    /// The transactions, in the order given
    pub closed spec fn spec_txs(self) -> Seq<Transaction> {
        self.txs@
    }

    /// An empty database
    pub fn new() -> (d: Database)
        ensures
            d.spec_txs().len() == 0,
    {
        Database { txs: Vec::new() }
    }

    /// Builds the database from (txid, raw transaction in hex) pairs. Fails
    /// at the first entry that does not decode, or whose transaction has
    /// another txid.
    pub fn from_string_map(map: &Vec<([u8; 32], String)>) -> (r: Result<Database, TxError>)
        ensures
            r is Ok <==> forall|i: int| 0 <= i < map@.len() ==> tx_entry_ok((#[trigger] map@[i]).0@, map@[i].1@),
            r matches Ok(d) ==> d.spec_txs().len() == map@.len() && forall|i: int| 0 <= i < map@.len()
                ==> (hex_bytes(map@[i].1@) matches Some(b) && consensus_transaction(b) == Some(tx_plain(#[trigger] d.spec_txs()[i]))),
            r matches Err(e) ==> first_tx_error(map@, e),
    {
        let mut txs: Vec<Transaction> = Vec::new();
        let mut i: usize = 0;
        while i < map.len()
            invariant
                i <= map@.len(),
                txs@.len() == i,
                forall|j: int| 0 <= j < i ==> tx_entry_ok((#[trigger] map@[j]).0@, map@[j].1@),
                forall|j: int| 0 <= j < i ==> (hex_bytes(map@[j].1@) matches Some(b) && consensus_transaction(b) == Some(tx_plain(#[trigger] txs@[j]))),
            decreases map@.len() - i,
        {
            let txid = map[i].0;
            let bytes = match from_hex(map[i].1.as_str()) {
                Some(b) => b,
                None => {
                    assert(tx_entry_error(map@[i as int].0, map@[i as int].1@) == Some(TxError::Hex(txid)));
                    return Err(TxError::Hex(txid));
                },
            };
            let tx = match decode_transaction(&bytes) {
                Some(t) => t,
                None => {
                    assert(tx_entry_error(map@[i as int].0, map@[i as int].1@) == Some(TxError::Decode(txid)));
                    return Err(TxError::Decode(txid));
                },
            };
            if !bytes_eq(&tx.txid, &txid) {
                assert(tx_entry_error(map@[i as int].0, map@[i as int].1@) == Some(TxError::TxidMismatch(txid)));
                return Err(TxError::TxidMismatch(txid));
            }
            txs.push(tx);
            i = i + 1;
        }
        Ok(Database { txs })
    }

    /// Looks up a transaction with an output of the given value paying to
    /// the given script, giving the transaction's index and the output
    /// index (the first such output of the first such transaction; outputs
    /// past index `u32::MAX` are not considered)
    pub fn find_tx_for_deposit(&self, script: &Vec<u8>, amount: u64) -> (r: Option<(usize, u32)>)
        ensures
            r is None ==> forall|t: int, n: int| !#[trigger] deposit_output(self.spec_txs(), script@, amount, t, n),
            r matches Some((t, n)) ==> is_first_deposit_match(self.spec_txs(), script@, amount, t as int, n as int),
    {
        let mut t: usize = 0;
        while t < self.txs.len()
            invariant
                t <= self.txs@.len(),
                forall|a: int, n: int| 0 <= a < t ==> !#[trigger] deposit_output(self.txs@, script@, amount, a, n),
            decreases self.txs@.len() - t,
        {
            let tx = &self.txs[t];
            let mut n: usize = 0;
            while n < tx.outputs.len()
                invariant
                    n <= tx.outputs@.len(),
                    tx == self.txs@[t as int],
                    t < self.txs@.len(),
                    forall|a: int, m: int| 0 <= a < t ==> !#[trigger] deposit_output(self.txs@, script@, amount, a, m),
                    forall|m: int| 0 <= m < n ==> !#[trigger] deposit_output(self.txs@, script@, amount, t as int, m),
                decreases tx.outputs@.len() - n,
            {
                if tx.outputs[n].value == amount && bytes_vec_eq(&tx.outputs[n].script_pubkey, script) {
                    if n <= u32::MAX as usize {
                        assert(is_first_deposit_match(self.spec_txs(), script@, amount, t as int, n as int));
                        return Some((t, n as u32));
                    }
                }
                n = n + 1;
            }
            t = t + 1;
        }
        None
    }

    /// Looks up a specific transaction output
    pub fn find_txout(&self, outpoint: OutPoint) -> (r: Option<&TxOut>)
        ensures
            r matches Some(o) ==> exists|t: int| #[trigger] is_first_txout(self.spec_txs(), outpoint, t)
                && *o == self.spec_txs()[t].outputs@[outpoint.vout as int],
            r is None ==> forall|t: int| 0 <= t < self.spec_txs().len() ==> !#[trigger] has_txout(self.spec_txs()[t], outpoint),
    {
        let mut t: usize = 0;
        while t < self.txs.len()
            invariant
                t <= self.txs@.len(),
                forall|a: int| 0 <= a < t ==> !#[trigger] has_txout(self.txs@[a], outpoint),
            decreases self.txs@.len() - t,
        {
            let tx = &self.txs[t];
            if bytes_eq(&tx.txid, &outpoint.txid) && (outpoint.vout as usize) < tx.outputs.len() {
                let o = &tx.outputs[outpoint.vout as usize];
                assert(is_first_txout(self.spec_txs(), outpoint, t as int));
                return Some(o);
            }
            t = t + 1;
        }
        None
    }

    /// The transaction at an index
    pub fn get(&self, i: usize) -> (tx: &Transaction)
        requires
            i < self.spec_txs().len(),
        ensures
            *tx == self.spec_txs()[i as int],
    {
        &self.txs[i]
    }
}

/// Whether two 32-byte arrays are equal
pub fn bytes_eq(a: &[u8; 32], b: &[u8; 32]) -> (r: bool)
    ensures
        r == (a@ == b@),
{
    let mut i: usize = 0;
    while i < 32
        invariant
            i <= 32,
            a@.len() == 32,
            b@.len() == 32,
            forall|j: int| 0 <= j < i ==> a@[j] == b@[j],
        decreases 32 - i,
    {
        if a[i] != b[i] {
            return false;
        }
        i = i + 1;
    }
    assert(a@ =~= b@);
    true
}

/// Whether two byte vectors are equal
pub fn bytes_vec_eq(a: &Vec<u8>, b: &Vec<u8>) -> (r: bool)
    ensures
        r == (a@ == b@),
{
    if a.len() != b.len() {
        return false;
    }
    let mut i: usize = 0;
    while i < a.len()
        invariant
            i <= a@.len(),
            a@.len() == b@.len(),
            forall|j: int| 0 <= j < i ==> a@[j] == b@[j],
        decreases a@.len() - i,
    {
        if a[i] != b[i] {
            return false;
        }
        i = i + 1;
    }
    assert(a@ =~= b@);
    true
}

/// Whether a transaction has the output an outpoint refers to
pub open spec fn has_txout(tx: Transaction, op: OutPoint) -> bool {
    tx.txid@ == op.txid@ && op.vout < tx.outputs@.len()
}

/// Whether transaction `t` is the first with the output an outpoint refers to
pub open spec fn is_first_txout(db: Seq<Transaction>, op: OutPoint, t: int) -> bool {
    &&& 0 <= t < db.len()
    &&& has_txout(db[t], op)
    &&& forall|a: int| 0 <= a < t ==> !#[trigger] has_txout(db[a], op)
}

/// Whether output `n` of transaction `t` pays `amount` to `script`
pub open spec fn deposit_output(db: Seq<Transaction>, script: Seq<u8>, amount: u64, t: int, n: int) -> bool {
    &&& 0 <= t < db.len()
    &&& 0 <= n < db[t].outputs@.len()
    &&& n <= u32::MAX
    &&& db[t].outputs@[n].value == amount
    &&& db[t].outputs@[n].script_pubkey@ == script
}

/// Whether output `n` of transaction `t` is the first output paying
/// `amount` to `script` (in transaction order, then output order)
pub open spec fn is_first_deposit_match(db: Seq<Transaction>, script: Seq<u8>, amount: u64, t: int, n: int) -> bool {
    &&& deposit_output(db, script, amount, t, n)
    &&& forall|a: int, m: int| 0 <= a < t ==> !#[trigger] deposit_output(db, script, amount, a, m)
    &&& forall|m: int| 0 <= m < n ==> !#[trigger] deposit_output(db, script, amount, t, m)
}

/// The first transaction with the output an outpoint refers to
pub open spec fn first_txout(db: Seq<Transaction>, op: OutPoint) -> Option<int> {
    if exists|t: int| is_first_txout(db, op, t) {
        Some(choose|t: int| is_first_txout(db, op, t))
    } else {
        None
    }
}

/// The first output paying `amount` to `script`
pub open spec fn first_deposit_match(db: Seq<Transaction>, script: Seq<u8>, amount: u64) -> Option<(int, int)> {
    if exists|t: int, n: int| is_first_deposit_match(db, script, amount, t, n) {
        Some(choose|t: int, n: int| is_first_deposit_match(db, script, amount, t, n))
    } else {
        None
    }
}

/// There is only one first transaction for an outpoint
pub proof fn lemma_first_txout_unique(db: Seq<Transaction>, op: OutPoint, t: int)
    requires
        is_first_txout(db, op, t),
    ensures
        first_txout(db, op) == Some(t),
{
    let u = choose|u: int| is_first_txout(db, op, u);
    assert(is_first_txout(db, op, u));
    if u < t {
        assert(!has_txout(db[u], op));
    } else if u > t {
        assert(!has_txout(db[t], op));
    }
}

/// There is only one first matching output
pub proof fn lemma_first_deposit_match_unique(db: Seq<Transaction>, script: Seq<u8>, amount: u64, t: int, n: int)
    requires
        is_first_deposit_match(db, script, amount, t, n),
    ensures
        first_deposit_match(db, script, amount) == Some((t, n)),
{
    let (u, m) = choose|u: int, m: int| is_first_deposit_match(db, script, amount, u, m);
    assert(is_first_deposit_match(db, script, amount, u, m));
    if u < t {
        assert(!deposit_output(db, script, amount, u, m));
    } else if u > t {
        assert(!deposit_output(db, script, amount, t, n));
    } else if m < n {
        assert(!deposit_output(db, script, amount, t, m));
    } else if m > n {
        assert(!deposit_output(db, script, amount, t, n));
    }
}

} // verus!
