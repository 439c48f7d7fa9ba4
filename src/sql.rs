//! Row encodings shared by the record kinds, and the statement texts built
//! around them.

pub mod ethereum;

use crate::text::{
    decimal, join, lemma_decimal_round_trip, lemma_decimal_shape, lemma_hex_round_trip, lower_hex,
    parse_decimal, parse_hex,
};
use vstd::prelude::*;

verus! {

/// The query that reads the highest block height already stored.
pub const LAST_DB_BLOCK_QUERY: &'static str = "SELECT number FROM view_last_block";

/// How transaction rows are written: as an idempotent upsert inside the
/// block transaction, or as an append-only bulk-copy stream after it.
#[derive(PartialEq, Eq, Structural, Clone, Copy, Debug)]
pub enum SqlOperation {
    Insert,
    Copy,
}

/// One column value of a row, as the encodings see it.
pub enum Field {
    /// A binary value (a hash, an address).
    Bytes(Seq<u8>),
    /// A non-negative integer.
    Int(nat),
    /// A point in time, in unix seconds.
    Timestamp(nat),
    /// An absent optional value.
    Null,
}

/// `DECODE('<hex>', 'hex')`: the SQL expression that yields the bytes whose
/// lowercase hexadecimal digits are `hex`.
pub open spec fn sql_decode(hex: Seq<char>) -> Seq<char> {
    "DECODE('"@ + hex + "', 'hex')"@
}

/// The escaped bytea literal of the bulk-copy text format: `\\x` and the digits.
pub open spec fn pg_hex_text(hex: Seq<char>) -> Seq<char> {
    "\\\\x"@ + hex
}

/// `TO_TIMESTAMP(<seconds>)`.
pub open spec fn to_timestamp_text(secs: nat) -> Seq<char> {
    "TO_TIMESTAMP("@ + decimal(secs) + ")"@
}

/// A field as it stands in an `INSERT` value tuple.
pub open spec fn insert_field(f: Field) -> Seq<char> {
    match f {
        Field::Bytes(b) => sql_decode(lower_hex(b)),
        Field::Int(n) => decimal(n),
        Field::Timestamp(n) => to_timestamp_text(n),
        Field::Null => "NULL"@,
    }
}

/// A field as it stands in a tab-separated bulk-copy line. The timestamp is
/// left as the same expression text as in the tuple: the loader downstream
/// post-processes it.
pub open spec fn copy_field(f: Field) -> Seq<char> {
    match f {
        Field::Bytes(b) => pg_hex_text(lower_hex(b)),
        Field::Int(n) => decimal(n),
        Field::Timestamp(n) => to_timestamp_text(n),
        Field::Null => "NULL"@,
    }
}

/// The value tuple of a row: `(f1, f2, ...),` with the trailing comma that
/// separates it from the next tuple.
pub open spec fn insert_row(fields: Seq<Field>) -> Seq<char> {
    "("@ + join(fields.map_values(|f: Field| insert_field(f)), ", "@) + "),"@
}

/// The bulk-copy line of a row, fields separated by tabs, without newline.
pub open spec fn copy_row(fields: Seq<Field>) -> Seq<char> {
    join(fields.map_values(|f: Field| copy_field(f)), "\t"@)
}

/// The encoding of a row under `op`.
pub open spec fn row_text(fields: Seq<Field>, op: SqlOperation) -> Seq<char> {
    match op {
        SqlOperation::Insert => insert_row(fields),
        SqlOperation::Copy => copy_row(fields),
    }
}

/// The field that a tuple field renders, read back by its first character:
/// `NULL`, a `DECODE` expression, a `TO_TIMESTAMP` expression, or digits.
pub open spec fn decode_insert_field(s: Seq<char>) -> Field {
    if s.len() > 0 && s[0] == 'N' {
        Field::Null
    } else if s.len() > 0 && s[0] == 'D' {
        Field::Bytes(parse_hex(s.subrange(8, s.len() - 9)))
    } else if s.len() > 0 && s[0] == 'T' {
        Field::Timestamp(parse_decimal(s.subrange(13, s.len() - 1)))
    } else {
        Field::Int(parse_decimal(s))
    }
}

/// The field that a bulk-copy field renders, read back by its first
/// character: `NULL`, an escaped bytea literal, a `TO_TIMESTAMP` expression,
/// or digits.
pub open spec fn decode_copy_field(s: Seq<char>) -> Field {
    if s.len() > 0 && s[0] == 'N' {
        Field::Null
    } else if s.len() > 0 && s[0] == '\\' {
        Field::Bytes(parse_hex(s.subrange(3, s.len() as int)))
    } else if s.len() > 0 && s[0] == 'T' {
        Field::Timestamp(parse_decimal(s.subrange(13, s.len() - 1)))
    } else {
        Field::Int(parse_decimal(s))
    }
}

/// Each field reads back from both of its renderings: a binary value as its
/// bytes, a number as its value, an absent value as absent.
pub proof fn lemma_field_round_trip(f: Field)
    ensures
        decode_insert_field(insert_field(f)) == f,
        decode_copy_field(copy_field(f)) == f,
{
    reveal_strlit("NULL");
    reveal_strlit("DECODE('");
    reveal_strlit("', 'hex')");
    reveal_strlit("TO_TIMESTAMP(");
    reveal_strlit(")");
    reveal_strlit("\\\\x");
    match f {
        Field::Bytes(b) => {
            let h = lower_hex(b);
            lemma_hex_round_trip(b);
            let i = insert_field(f);
            assert(i.subrange(8, i.len() - 9) =~= h);
            let c = copy_field(f);
            assert(c.subrange(3, c.len() as int) =~= h);
        },
        Field::Int(n) => {
            lemma_decimal_round_trip(n);
            lemma_decimal_shape(n);
        },
        Field::Timestamp(n) => {
            lemma_decimal_round_trip(n);
            let t = to_timestamp_text(n);
            assert(t.subrange(13, t.len() - 1) =~= decimal(n));
        },
        Field::Null => {},
    }
}

/// The two encodings of a record agree: the tuple and the bulk-copy line
/// render the same fields in the same order, and each rendered field, in
/// either encoding, reads back as the same typed value. An absent value is
/// the literal `NULL` in both.
pub proof fn lemma_encodings_agree<S: Sequelizable>(r: &S)
    ensures
        insert_row(r.spec_fields()) == "("@ + join(
            r.spec_fields().map_values(|f: Field| insert_field(f)),
            ", "@,
        ) + "),"@,
        copy_row(r.spec_fields()) == join(
            r.spec_fields().map_values(|f: Field| copy_field(f)),
            "\t"@,
        ),
        forall|i: int|
            0 <= i < r.spec_fields().len() ==> {
                let f = #[trigger] r.spec_fields()[i];
                &&& decode_insert_field(insert_field(f)) == f
                &&& decode_copy_field(copy_field(f)) == f
                &&& (f is Null ==> insert_field(f) == "NULL"@ && copy_field(f) == "NULL"@)
            },
{
    assert forall|i: int| 0 <= i < r.spec_fields().len() implies {
        let f = #[trigger] r.spec_fields()[i];
        &&& decode_insert_field(insert_field(f)) == f
        &&& decode_copy_field(copy_field(f)) == f
        &&& (f is Null ==> insert_field(f) == "NULL"@ && copy_field(f) == "NULL"@)
    } by {
        lemma_field_round_trip(r.spec_fields()[i]);
    }
}

/// A fixed-size binary value that renders as lowercase hexadecimal.
pub trait LowerHexBytes {
    spec fn spec_bytes(&self) -> Seq<u8>;

    fn to_lower_hex(&self) -> (r: String)
        ensures
            r@ == lower_hex(self.spec_bytes()),
    ;
}

/// A record kind that can be written as a row of a table.
pub trait Sequelizable {
    spec fn spec_table_name() -> Seq<char>;

    spec fn spec_insert_fields() -> Seq<char>;

    /// The row's column values, in the order of `insert_fields`.
    spec fn spec_fields(&self) -> Seq<Field>;

    fn table_name() -> (r: &'static str)
        ensures
            r@ == Self::spec_table_name(),
    ;

    fn insert_fields() -> (r: &'static str)
        ensures
            r@ == Self::spec_insert_fields(),
    ;

    fn to_insert_values(&self) -> (r: String)
        ensures
            r@ == insert_row(self.spec_fields()),
    ;

    fn to_copy_values(&self) -> (r: String)
        ensures
            r@ == copy_row(self.spec_fields()),
    ;

    fn to_values(&self, op: &SqlOperation) -> (r: String)
        ensures
            r@ == row_text(self.spec_fields(), *op),
    {
        match op {
            SqlOperation::Insert => self.to_insert_values(),
            SqlOperation::Copy => self.to_copy_values(),
        }
    }

    fn pg_hex<H: LowerHexBytes>(&self, hash: &H) -> (r: String)
        ensures
            r@ == pg_hex_text(lower_hex(hash.spec_bytes())),
    {
        let mut result = String::from_str("\\\\x");
        let digits = hash.to_lower_hex();
        result.append(digits.as_str());
        result
    }
}

} // verus!
