//! The on-disk image of a database: a length-prefixed byte encoding of the
//! record collection, together with its decoder. `Database::to_bytes` is the
//! image that a flush writes out; `Database::open` rebuilds a database from
//! the image a run starts from. Decoding the encoding of any collection
//! yields that collection back: the round-trip law at the bottom of this
//! file.
//!
//! Layout: an eight-byte little-endian record count, then each record as its
//! three fields in order, each field an eight-byte little-endian byte length
//! followed by that many bytes of UTF-8.

use vstd::prelude::*;

use vstd::bytes::{
    lemma_auto_spec_u64_to_from_le_bytes, spec_u64_from_le_bytes, spec_u64_to_le_bytes,
    u64_from_le_bytes, u64_to_le_bytes,
};
use vstd::slice::{slice_subrange, slice_to_vec};
use vstd::string::StrSliceExecFns;
use vstd::utf8::{
    decode_utf8, encode_utf8, encode_utf8_decode_utf8, encode_utf8_valid_utf8, valid_utf8,
};

use crate::errors::Error;
use crate::store::{contains_name, names_unique, Database, RecordModel, Record};

verus! {

/// The UTF-8 image of the field fits in an eight-byte length prefix. Every
/// string held in memory satisfies this: its byte length is a machine size.
pub open spec fn str_fits(s: Seq<char>) -> bool {
    encode_utf8(s).len() <= u64::MAX
}

/// Every field of the record fits its length prefix.
pub open spec fn record_fits(r: RecordModel) -> bool {
    str_fits(r.name) && str_fits(r.username) && str_fits(r.secret)
}

/// The collection fits the count prefix and every record fits.
pub open spec fn records_fit(s: Seq<RecordModel>) -> bool {
    s.len() <= u64::MAX && forall|i: int| 0 <= i < s.len() ==> record_fits(#[trigger] s[i])
}

/// One encoded string field: byte length, then the UTF-8 bytes.
pub open spec fn spec_encode_str(s: Seq<char>) -> Seq<u8> {
    spec_u64_to_le_bytes(encode_utf8(s).len() as u64) + encode_utf8(s)
}

/// One encoded record: its three fields in order.
pub open spec fn spec_encode_record(r: RecordModel) -> Seq<u8> {
    spec_encode_str(r.name) + spec_encode_str(r.username) + spec_encode_str(r.secret)
}

/// The records of a collection, encoded one after another.
pub open spec fn spec_encode_records(s: Seq<RecordModel>) -> Seq<u8>
    decreases s.len(),
{
    if s.len() == 0 {
        seq![]
    } else {
        spec_encode_record(s[0]) + spec_encode_records(s.drop_first())
    }
}

/// The full database image: the record count, then the records.
pub open spec fn spec_encode_db(s: Seq<RecordModel>) -> Seq<u8> {
    spec_u64_to_le_bytes(s.len() as u64) + spec_encode_records(s)
}

/// Reads one string field off the front of `b`: `None` when the bytes are
/// exhausted or are not UTF-8, otherwise the field and the remaining bytes.
pub open spec fn spec_take_str(b: Seq<u8>) -> Option<(Seq<char>, Seq<u8>)> {
    if b.len() < 8 {
        None
    } else {
        let n = spec_u64_from_le_bytes(b.take(8)) as int;
        let rest = b.skip(8);
        if rest.len() < n {
            None
        } else if !valid_utf8(rest.take(n)) {
            None
        } else {
            Some((decode_utf8(rest.take(n)), rest.skip(n)))
        }
    }
}

/// Reads one record (three string fields) off the front of `b`.
pub open spec fn spec_take_record(b: Seq<u8>) -> Option<(RecordModel, Seq<u8>)> {
    match spec_take_str(b) {
        None => None,
        Some((name, b1)) => match spec_take_str(b1) {
            None => None,
            Some((username, b2)) => match spec_take_str(b2) {
                None => None,
                Some((secret, b3)) => Some((RecordModel { name, username, secret }, b3)),
            },
        },
    }
}

/// Reads `n` records off the front of `b`.
pub open spec fn spec_take_records(b: Seq<u8>, n: nat) -> Option<(Seq<RecordModel>, Seq<u8>)>
    decreases n,
{
    if n == 0 {
        Some((seq![], b))
    } else {
        match spec_take_record(b) {
            None => None,
            Some((r, b1)) => match spec_take_records(b1, (n - 1) as nat) {
                None => None,
                Some((rs, b2)) => Some((seq![r] + rs, b2)),
            },
        }
    }
}

/// Decodes a full database image: the count, that many records, and nothing
/// left over. `None` on any malformed image.
pub open spec fn spec_decode_db(b: Seq<u8>) -> Option<Seq<RecordModel>> {
    if b.len() < 8 {
        None
    } else {
        let n = spec_u64_from_le_bytes(b.take(8));
        match spec_take_records(b.skip(8), n as nat) {
            None => None,
            Some((rs, rest)) => if rest.len() == 0 {
                Some(rs)
            } else {
                None
            },
        }
    }
}

/// Reading a string field off its own encoding yields the string and leaves
/// exactly the trailing bytes.
pub proof fn lemma_take_str_round_trip(s: Seq<char>, tail: Seq<u8>)
    requires
        str_fits(s),
    ensures
        spec_take_str(spec_encode_str(s) + tail) == Some((s, tail)),
{
    broadcast use encode_utf8_valid_utf8;
    broadcast use encode_utf8_decode_utf8;

    let bytes = encode_utf8(s);
    let lenb = spec_u64_to_le_bytes(bytes.len() as u64);
    lemma_auto_spec_u64_to_from_le_bytes();
    let all = spec_encode_str(s) + tail;
    assert(all.take(8) =~= lenb);
    assert(all.skip(8) =~= bytes + tail);
    let n = spec_u64_from_le_bytes(all.take(8)) as int;
    assert(n == bytes.len());
    assert((bytes + tail).take(n) =~= bytes);
    assert((bytes + tail).skip(n) =~= tail);
}

/// Reading a record off its own encoding yields the record and leaves
/// exactly the trailing bytes.
proof fn lemma_take_record_round_trip(r: RecordModel, tail: Seq<u8>)
    requires
        record_fits(r),
    ensures
        spec_take_record(spec_encode_record(r) + tail) == Some((r, tail)),
{
    let t2 = spec_encode_str(r.secret) + tail;
    let t1 = spec_encode_str(r.username) + t2;
    assert(spec_encode_record(r) + tail =~= spec_encode_str(r.name) + t1);
    lemma_take_str_round_trip(r.name, t1);
    assert(t1 =~= spec_encode_str(r.username) + t2);
    lemma_take_str_round_trip(r.username, t2);
    lemma_take_str_round_trip(r.secret, tail);
}

/// Reading `s.len()` records off the encoding of `s` yields `s` and leaves
/// exactly the trailing bytes.
proof fn lemma_take_records_round_trip(s: Seq<RecordModel>, tail: Seq<u8>)
    requires
        forall|i: int| 0 <= i < s.len() ==> record_fits(#[trigger] s[i]),
    ensures
        spec_take_records(spec_encode_records(s) + tail, s.len() as nat) == Some((s, tail)),
    decreases s.len(),
{
    if s.len() == 0 {
        assert(spec_encode_records(s) + tail =~= tail);
        assert(s =~= Seq::<RecordModel>::empty());
    } else {
        let rest = s.drop_first();
        let rest_bytes = spec_encode_records(rest) + tail;
        assert(spec_encode_records(s) + tail =~= spec_encode_record(s[0]) + rest_bytes);
        lemma_take_record_round_trip(s[0], rest_bytes);
        lemma_take_records_round_trip(rest, tail);
        assert(seq![s[0]] + rest =~= s);
    }
}

/// The round-trip law: decoding the encoding of any collection that fits the
/// length prefixes yields exactly that collection. A database flushed by
/// `Database::to_bytes` and reopened through `Database::open` therefore
/// reproduces an equivalent in-memory collection.
pub proof fn lemma_database_round_trip(s: Seq<RecordModel>)
    requires
        records_fit(s),
    ensures
        spec_decode_db(spec_encode_db(s)) == Some(s),
{
    let all = spec_encode_db(s);
    let lenb = spec_u64_to_le_bytes(s.len() as u64);
    lemma_auto_spec_u64_to_from_le_bytes();
    assert(all.take(8) =~= lenb);
    assert(all.skip(8) =~= spec_encode_records(s) + seq![]);
    lemma_take_records_round_trip(s, seq![]);
    assert(spec_u64_from_le_bytes(all.take(8)) as nat == s.len());
}

/// Relies on `String::from_utf8`: it succeeds exactly on valid UTF-8 input,
/// and the returned string is the one whose UTF-8 image is that input.
#[verifier::external_body]
fn string_from_utf8(v: Vec<u8>) -> (r: Option<String>)
    ensures
        (r is Some) <==> valid_utf8(v@),
        r matches Some(s) ==> encode_utf8(s@) == v@,
{
    String::from_utf8(v).ok()
}

/// Appends the encoding of one string field to `out`.
pub(crate) fn encode_str_into(out: &mut Vec<u8>, s: &String)
    ensures
        final(out)@ == old(out)@ + spec_encode_str(s@),
        str_fits(s@),
{
    let mut bytes = s.as_str().as_bytes_vec();
    let mut lenb = u64_to_le_bytes(bytes.len() as u64);
    out.append(&mut lenb);
    out.append(&mut bytes);
    proof {
        assert(final(out)@ =~= old(out)@ + spec_encode_str(s@));
    }
}

/// Reads one string field of `bytes` starting at `pos`, mirroring
/// `spec_take_str` on the remaining bytes.
pub(crate) fn take_str(bytes: &Vec<u8>, pos: usize) -> (r: Option<(String, usize)>)
    requires
        pos <= bytes@.len(),
    ensures
        match r {
            Some((s, newpos)) => {
                &&& pos <= newpos <= bytes@.len()
                &&& spec_take_str(bytes@.skip(pos as int)) == Some(
                    (s@, bytes@.skip(newpos as int)),
                )
            },
            None => spec_take_str(bytes@.skip(pos as int)) is None,
        },
{
    broadcast use encode_utf8_decode_utf8;

    let ghost b = bytes@.skip(pos as int);
    let n = bytes.len();
    if n - pos < 8 {
        return None;
    }
    let len_slice = slice_subrange(bytes.as_slice(), pos, pos + 8);
    let len64 = u64_from_le_bytes(len_slice);
    proof {
        assert(b.take(8) =~= bytes@.subrange(pos as int, pos as int + 8));
    }
    let rem = n - pos - 8;
    if len64 > rem as u64 {
        proof {
            assert(b.skip(8).len() < len64 as int);
        }
        return None;
    }
    let len = len64 as usize;
    let data = slice_subrange(bytes.as_slice(), pos + 8, pos + 8 + len);
    proof {
        assert(b.skip(8).take(len64 as int) =~= data@);
    }
    match string_from_utf8(slice_to_vec(data)) {
        None => None,
        Some(s) => {
            proof {
                assert(decode_utf8(data@) == s@);
                assert(b.skip(8).skip(len64 as int) =~= bytes@.skip(pos as int + 8 + len as int));
            }
            Some((s, pos + 8 + len))
        },
    }
}

/// Reads one record of `bytes` starting at `pos`, mirroring
/// `spec_take_record` on the remaining bytes.
fn take_record(bytes: &Vec<u8>, pos: usize) -> (r: Option<(Record, usize)>)
    requires
        pos <= bytes@.len(),
    ensures
        match r {
            Some((rec, newpos)) => {
                &&& pos <= newpos <= bytes@.len()
                &&& spec_take_record(bytes@.skip(pos as int)) == Some(
                    (rec@, bytes@.skip(newpos as int)),
                )
            },
            None => spec_take_record(bytes@.skip(pos as int)) is None,
        },
{
    let (name, p1) = match take_str(bytes, pos) {
        None => {
            return None;
        },
        Some(x) => x,
    };
    let (username, p2) = match take_str(bytes, p1) {
        None => {
            return None;
        },
        Some(x) => x,
    };
    let (secret, p3) = match take_str(bytes, p2) {
        None => {
            return None;
        },
        Some(x) => x,
    };
    Some((Record { name, username, secret }, p3))
}

/// Appending a record to a collection whose names already include the
/// record's name breaks uniqueness, whatever follows.
proof fn lemma_duplicate_breaks_uniqueness(p: Seq<RecordModel>, r: RecordModel, rest: Seq<RecordModel>)
    requires
        contains_name(p, r.name),
    ensures
        !names_unique(p + seq![r] + rest),
{
    let i = choose|i: int| 0 <= i < p.len() && p[i].name == r.name;
    let s = p + seq![r] + rest;
    assert(s[i].name == r.name);
    assert(s[p.len() as int].name == r.name);
}

impl Database {
    /// The byte image of this database, written to the backing file when the
    /// collection is flushed.
    pub fn to_bytes(&self) -> (out: Vec<u8>)
        ensures
            out@ == spec_encode_db(self@),
            records_fit(self@),
    {
        let n = self.len();
        let mut out = u64_to_le_bytes(n as u64);
        for i in 0..n
            invariant
                n == self@.len(),
                out@ == spec_u64_to_le_bytes(self@.len() as u64) + spec_encode_records(
                    self@.take(i as int),
                ),
                forall|j: int| 0 <= j < i ==> record_fits(#[trigger] self@[j]),
        {
            let r = self.record_at(i);
            encode_str_into(&mut out, &r.name);
            encode_str_into(&mut out, &r.username);
            encode_str_into(&mut out, &r.secret);
            proof {
                let t = self@.take(i + 1);
                lemma_encode_records_snoc(t);
                assert(t.drop_last() =~= self@.take(i as int));
                assert(t.last() == self@[i as int]);
                assert(out@ =~= spec_u64_to_le_bytes(self@.len() as u64) + spec_encode_records(t));
            }
        }
        proof {
            assert(self@.take(n as int) =~= self@);
        }
        out
    }

    /// Rebuilds a database from the byte image at `path`. Fails with
    /// `DatabaseCorrupt`, exactly when the image does not decode or decodes
    /// to a collection with a repeated name; a missing or unreadable file is
    /// the caller's distinct failure, surfaced before any bytes reach this
    /// function.
    pub fn open(path: String, bytes: &Vec<u8>) -> (r: Result<Database, Error>)
        ensures
            match r {
                Ok(db) => {
                    &&& db.wf()
                    &&& db.spec_path() == path@
                    &&& spec_decode_db(bytes@) == Some(db@)
                },
                Err(e) => {
                    &&& e == Error::DatabaseCorrupt
                    &&& match spec_decode_db(bytes@) {
                        None => true,
                        Some(s) => !names_unique(s),
                    }
                },
            },
    {
        if bytes.len() < 8 {
            return Err(Error::DatabaseCorrupt);
        }
        let count = u64_from_le_bytes(slice_subrange(bytes.as_slice(), 0, 8));
        proof {
            assert(bytes@.take(8) =~= bytes@.subrange(0, 8));
        }
        let mut db = Database::init(path);
        let mut pos: usize = 8;
        let mut i: u64 = 0;
        while i < count
            invariant
                8 <= pos <= bytes@.len(),
                i <= count,
                db.wf(),
                db.spec_path() == path@,
                count == spec_u64_from_le_bytes(bytes@.take(8)),
                bytes@.len() >= 8,
                match spec_take_records(bytes@.skip(pos as int), (count - i) as nat) {
                    None => spec_take_records(bytes@.skip(8), count as nat) is None,
                    Some((rs, rest)) => spec_take_records(bytes@.skip(8), count as nat) == Some(
                        (db@ + rs, rest),
                    ),
                },
            decreases count - i,
        {
            let ghost remaining = (count - i) as nat;
            match take_record(bytes, pos) {
                None => {
                    proof {
                        assert(spec_take_records(bytes@.skip(pos as int), remaining) is None);
                    }
                    return Err(Error::DatabaseCorrupt);
                },
                Some((rec, newpos)) => {
                    let ghost before = db@;
                    let ghost rm = rec@;
                    match db.add(rec) {
                        Err(_) => {
                            proof {
                                match spec_take_records(
                                    bytes@.skip(newpos as int),
                                    (remaining - 1) as nat,
                                ) {
                                    None => {
                                        assert(spec_take_records(
                                            bytes@.skip(pos as int),
                                            remaining,
                                        ) is None);
                                    },
                                    Some((rs, rest)) => {
                                        assert(spec_take_records(
                                            bytes@.skip(pos as int),
                                            remaining,
                                        ) == Some((seq![rm] + rs, rest)));
                                        lemma_duplicate_breaks_uniqueness(before, rm, rs);
                                        assert(before + (seq![rm] + rs) =~= before + seq![rm]
                                            + rs);
                                    },
                                }
                            }
                            return Err(Error::DatabaseCorrupt);
                        },
                        Ok(()) => {
                            proof {
                                match spec_take_records(
                                    bytes@.skip(newpos as int),
                                    (remaining - 1) as nat,
                                ) {
                                    None => {},
                                    Some((rs, rest)) => {
                                        assert(spec_take_records(
                                            bytes@.skip(pos as int),
                                            remaining,
                                        ) == Some((seq![rm] + rs, rest)));
                                        assert(before + (seq![rm] + rs) =~= (before.push(rm))
                                            + rs);
                                    },
                                }
                            }
                            pos = newpos;
                            i = i + 1;
                        },
                    }
                },
            }
        }
        proof {
            assert(spec_take_records(bytes@.skip(pos as int), 0) == Some(
                (Seq::<RecordModel>::empty(), bytes@.skip(pos as int)),
            ));
            assert(db@ + (Seq::<RecordModel>::empty()) =~= db@);
        }
        if pos != bytes.len() {
            proof {
                assert(bytes@.skip(pos as int).len() > 0);
            }
            return Err(Error::DatabaseCorrupt);
        }
        proof {
            assert(bytes@.skip(pos as int).len() == 0);
        }
        Ok(db)
    }
}

/// A later record's encoding is appended at the back: encoding a collection
/// is encoding all but its last record, then the last.
proof fn lemma_encode_records_snoc(s: Seq<RecordModel>)
    requires
        s.len() > 0,
    ensures
        spec_encode_records(s) == spec_encode_records(s.drop_last()) + spec_encode_record(
            s.last(),
        ),
    decreases s.len(),
{
    if s.len() == 1 {
        assert(s.drop_first() =~= Seq::<RecordModel>::empty());
        assert(s.drop_last() =~= Seq::<RecordModel>::empty());
        assert(spec_encode_records(s) =~= spec_encode_records(s.drop_last()) + spec_encode_record(
            s.last(),
        ));
    } else {
        let rest = s.drop_first();
        lemma_encode_records_snoc(rest);
        assert(rest.last() == s.last());
        assert(rest.drop_last() =~= s.drop_last().drop_first());
        assert(s.drop_last()[0] == s[0]);
        assert(spec_encode_records(s.drop_last()) == spec_encode_record(s[0])
            + spec_encode_records(s.drop_last().drop_first()));
        assert(spec_encode_records(s) =~= spec_encode_records(s.drop_last()) + spec_encode_record(
            s.last(),
        ));
    }
}

} // verus!
