//! The chain records: blocks and their transactions, and their rows.

use crate::sql::{copy_field, insert_field, Field, LowerHexBytes, Sequelizable};
use crate::text::{decimal, join, join_cells, lower_hex, push_decimal, string_views, u64_decimal};
use vstd::prelude::*;

verus! {

/// A 32-byte digest (a block or transaction hash).
#[derive(PartialEq, Eq, Clone, Copy, Debug)]
pub struct Digest {
    pub bytes: [u8; 32],
}

/// A 20-byte account address.
#[derive(PartialEq, Eq, Clone, Copy, Debug)]
pub struct Address {
    pub bytes: [u8; 20],
}

/// An unsigned 256-bit integer, as four 64-bit words, least significant first.
#[derive(PartialEq, Eq, Clone, Copy, Debug)]
pub struct Uint256 {
    pub words: [u64; 4],
}

/// The number that four little-endian 64-bit words stand for.
pub open spec fn words_value(w: Seq<u64>) -> nat {
    (w[0] as nat + w[1] as nat * 0x1_0000_0000_0000_0000 + w[2] as nat * 0x1_0000_0000_0000_0000
        * 0x1_0000_0000_0000_0000 + w[3] as nat * 0x1_0000_0000_0000_0000 * 0x1_0000_0000_0000_0000
        * 0x1_0000_0000_0000_0000) as nat
}

/// Relies on `LowerHex` of web3's `H256` (fixed-hash): two lowercase digits
/// per byte, in order, with no prefix when the `#` flag is absent.
#[verifier::external_body]
fn h256_lower_hex(b: &[u8; 32]) -> (r: String)
    ensures
        r@ == lower_hex(b@),
{
    format!("{:x}", web3::types::H256(*b))
}

/// Relies on `LowerHex` of web3's `H160` (fixed-hash): two lowercase digits
/// per byte, in order, with no prefix when the `#` flag is absent.
#[verifier::external_body]
fn h160_lower_hex(b: &[u8; 20]) -> (r: String)
    ensures
        r@ == lower_hex(b@),
{
    format!("{:x}", web3::types::H160(*b))
}

/// Relies on `Display` of web3's `U256` (uint): the decimal digits of the
/// number, without leading zeros, and `0` for zero.
#[verifier::external_body]
fn u256_decimal(w: &[u64; 4]) -> (r: String)
    ensures
        r@ == decimal(words_value(w@)),
{
    web3::types::U256(*w).to_string()
}

impl LowerHexBytes for Digest {
    open spec fn spec_bytes(&self) -> Seq<u8> {
        self.bytes@
    }

    fn to_lower_hex(&self) -> (r: String) {
        h256_lower_hex(&self.bytes)
    }
}

impl LowerHexBytes for Address {
    open spec fn spec_bytes(&self) -> Seq<u8> {
        self.bytes@
    }

    fn to_lower_hex(&self) -> (r: String) {
        h160_lower_hex(&self.bytes)
    }
}

impl Uint256 {
    pub open spec fn spec_value(&self) -> nat {
        words_value(self.words@)
    }

    /// The decimal digits of the number.
    pub fn to_decimal(&self) -> (r: String)
        ensures
            r@ == decimal(self.spec_value()),
    {
        u256_decimal(&self.words)
    }
}

/// A transaction of a mined block.
#[derive(PartialEq, Eq, Clone, Debug)]
pub struct Transaction {
    pub hash: Digest,
    pub nonce: u64,
    pub block_hash: Digest,
    pub block_number: u64,
    pub transaction_index: u64,
    pub from: Option<Address>,
    /// Absent for a contract creation.
    pub to: Option<Address>,
    pub value: Uint256,
    pub gas: Uint256,
    pub gas_price: Option<Uint256>,
}

/// A block of the canonical chain, with its transactions in order.
#[derive(PartialEq, Eq, Clone, Debug)]
pub struct Block {
    pub number: u64,
    pub hash: Digest,
    /// Unix seconds.
    pub timestamp: u64,
    pub transactions: Vec<Transaction>,
}

/// The field of an optional address.
pub open spec fn address_field(a: Option<Address>) -> Field {
    match a {
        Some(x) => Field::Bytes(x.bytes@),
        None => Field::Null,
    }
}

/// The field of an optional 256-bit quantity.
pub open spec fn quantity_field(q: Option<Uint256>) -> Field {
    match q {
        Some(x) => Field::Int(x.spec_value()),
        None => Field::Null,
    }
}

fn null_text() -> (r: String)
    ensures
        r@ == insert_field(Field::Null),
        r@ == copy_field(Field::Null),
{
    String::from_str("NULL")
}

/// `DECODE('<hex>', 'hex')` of a binary value.
fn sql_decode_cell<H: LowerHexBytes>(h: &H) -> (r: String)
    ensures
        r@ == insert_field(Field::Bytes(h.spec_bytes())),
{
    let mut s = String::from_str("DECODE('");
    let digits = h.to_lower_hex();
    s.append(digits.as_str());
    s.append("', 'hex')");
    s
}

fn timestamp_cell(secs: u64) -> (r: String)
    ensures
        r@ == insert_field(Field::Timestamp(secs as nat)),
        r@ == copy_field(Field::Timestamp(secs as nat)),
{
    let mut s = String::from_str("TO_TIMESTAMP(");
    push_decimal(&mut s, secs);
    s.append(")");
    s
}

fn address_insert_cell(a: &Option<Address>) -> (r: String)
    ensures
        r@ == insert_field(address_field(*a)),
{
    match a {
        Some(x) => sql_decode_cell(x),
        None => null_text(),
    }
}

fn quantity_cell(q: &Option<Uint256>) -> (r: String)
    ensures
        r@ == insert_field(quantity_field(*q)),
        r@ == copy_field(quantity_field(*q)),
{
    match q {
        Some(x) => x.to_decimal(),
        None => null_text(),
    }
}

/// `(<cells joined by ", ">),`
fn tuple_of(cells: &Vec<String>) -> (r: String)
    ensures
        r@ == "("@ + join(string_views(cells@), ", "@) + "),"@,
{
    let mut s = String::from_str("(");
    let body = join_cells(cells, ", ");
    s.append(body.as_str());
    s.append("),");
    s
}

impl Transaction {
    fn address_copy_cell(&self, a: &Option<Address>) -> (r: String)
        ensures
            r@ == copy_field(address_field(*a)),
    {
        match a {
            Some(x) => self.pg_hex(x),
            None => null_text(),
        }
    }
}

impl Sequelizable for Transaction {
    open spec fn spec_table_name() -> Seq<char> {
        "transactions"@
    }

    open spec fn spec_insert_fields() -> Seq<char> {
        "hash, nonce, blockHash, blockNumber, transactionIndex, \"from\", \"to\", \"value\", gas, gasPrice"@
    }

    open spec fn spec_fields(&self) -> Seq<Field> {
        seq![
            Field::Bytes(self.hash.bytes@),
            Field::Int(self.nonce as nat),
            Field::Bytes(self.block_hash.bytes@),
            Field::Int(self.block_number as nat),
            Field::Int(self.transaction_index as nat),
            address_field(self.from),
            address_field(self.to),
            Field::Int(self.value.spec_value()),
            Field::Int(self.gas.spec_value()),
            quantity_field(self.gas_price),
        ]
    }

    fn table_name() -> (r: &'static str) {
        "transactions"
    }

    fn insert_fields() -> (r: &'static str) {
        "hash, nonce, blockHash, blockNumber, transactionIndex, \"from\", \"to\", \"value\", gas, gasPrice"
    }

    fn to_insert_values(&self) -> (r: String) {
        let mut cells: Vec<String> = Vec::new();
        cells.push(sql_decode_cell(&self.hash));
        cells.push(u64_decimal(self.nonce));
        cells.push(sql_decode_cell(&self.block_hash));
        cells.push(u64_decimal(self.block_number));
        cells.push(u64_decimal(self.transaction_index));
        cells.push(address_insert_cell(&self.from));
        cells.push(address_insert_cell(&self.to));
        cells.push(self.value.to_decimal());
        cells.push(self.gas.to_decimal());
        cells.push(quantity_cell(&self.gas_price));
        assert(string_views(cells@) =~= self.spec_fields().map_values(|f: Field| insert_field(f)));
        tuple_of(&cells)
    }

    fn to_copy_values(&self) -> (r: String) {
        let mut cells: Vec<String> = Vec::new();
        cells.push(self.pg_hex(&self.hash));
        cells.push(u64_decimal(self.nonce));
        cells.push(self.pg_hex(&self.block_hash));
        cells.push(u64_decimal(self.block_number));
        cells.push(u64_decimal(self.transaction_index));
        cells.push(self.address_copy_cell(&self.from));
        cells.push(self.address_copy_cell(&self.to));
        cells.push(self.value.to_decimal());
        cells.push(self.gas.to_decimal());
        cells.push(quantity_cell(&self.gas_price));
        assert(string_views(cells@) =~= self.spec_fields().map_values(|f: Field| copy_field(f)));
        join_cells(&cells, "\t")
    }
}

impl Sequelizable for Block {
    open spec fn spec_table_name() -> Seq<char> {
        "blocks"@
    }

    open spec fn spec_insert_fields() -> Seq<char> {
        "\"number\", hash, \"timestamp\""@
    }

    open spec fn spec_fields(&self) -> Seq<Field> {
        seq![
            Field::Int(self.number as nat),
            Field::Bytes(self.hash.bytes@),
            Field::Timestamp(self.timestamp as nat),
        ]
    }

    fn table_name() -> (r: &'static str) {
        "blocks"
    }

    fn insert_fields() -> (r: &'static str) {
        "\"number\", hash, \"timestamp\""
    }

    fn to_insert_values(&self) -> (r: String) {
        let mut cells: Vec<String> = Vec::new();
        cells.push(u64_decimal(self.number));
        cells.push(sql_decode_cell(&self.hash));
        cells.push(timestamp_cell(self.timestamp));
        assert(string_views(cells@) =~= self.spec_fields().map_values(|f: Field| insert_field(f)));
        tuple_of(&cells)
    }

    fn to_copy_values(&self) -> (r: String) {
        let mut cells: Vec<String> = Vec::new();
        cells.push(u64_decimal(self.number));
        cells.push(self.pg_hex(&self.hash));
        cells.push(timestamp_cell(self.timestamp));
        assert(string_views(cells@) =~= self.spec_fields().map_values(|f: Field| copy_field(f)));
        join_cells(&cells, "\t")
    }
}

} // verus!
