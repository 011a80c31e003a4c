//! The record (row payload) codec: a header varint giving the header
//! size, a run of serial-type varints, then the tightly packed value
//! bytes in the same order.

use vstd::prelude::*;
use vstd::utf8::valid_utf8;
use crate::util::{be_uint, read_be_uint, read_signed_be, spec_signed_be, copy_range};
use crate::varint::{spec_varint, Varint};

verus! {

/// What record decoding can report.
#[derive(PartialEq, Eq, Structural, Debug, Clone, Copy)]
pub enum RecordError {
    /// The header-size varint or the payload ended early.
    VarintTruncated,
    /// The payload is shorter than its header and serial types demand.
    ShortPayload,
    /// A reserved or undefined serial-type value.
    ReservedSerialType(i64),
    /// A text value whose bytes are not valid UTF-8.
    InvalidUtf8,
}

/// One decoded value of a record.
#[derive(Debug)]
pub enum Record {
    Null,
    Integer(i64),
    /// An eight-byte floating-point value, held as its IEEE-754 bit pattern.
    Float(u64),
    Blob(Vec<u8>),
    Text(Vec<u8>),
    Zero,
}

/// The mathematical shape of a decoded record value.
pub enum RecordV {
    Null,
    Integer(i64),
    Float(u64),
    Blob(Seq<u8>),
    Text(Seq<u8>),
    Zero,
}

impl View for Record {
    type V = RecordV;

    open spec fn view(&self) -> RecordV {
        match self {
            Record::Null => RecordV::Null,
            Record::Integer(v) => RecordV::Integer(*v),
            Record::Float(v) => RecordV::Float(*v),
            Record::Blob(b) => RecordV::Blob(b@),
            Record::Text(b) => RecordV::Text(b@),
            Record::Zero => RecordV::Zero,
        }
    }
}

impl DeepView for Record {
    type V = RecordV;

    open spec fn deep_view(&self) -> RecordV {
        self.view()
    }
}

/// A serial type resolved to its kind; blob and text lengths are the
/// byte counts the type encodes.
#[derive(PartialEq, Eq, Structural, Debug, Clone, Copy)]
pub enum RecordType {
    Null,
    I8,
    I16,
    I24,
    I32,
    I48,
    I64,
    F64,
    Zero,
    One,
    Blob(u64),
    Text(u64),
}

/// The kind a serial-type value selects; 10, 11 and negative values are
/// reserved and rejected.
pub open spec fn spec_record_type(v: i64) -> Result<RecordType, RecordError> {
    if v == 0 {
        Ok(RecordType::Null)
    } else if v == 1 {
        Ok(RecordType::I8)
    } else if v == 2 {
        Ok(RecordType::I16)
    } else if v == 3 {
        Ok(RecordType::I24)
    } else if v == 4 {
        Ok(RecordType::I32)
    } else if v == 5 {
        Ok(RecordType::I48)
    } else if v == 6 {
        Ok(RecordType::I64)
    } else if v == 7 {
        Ok(RecordType::F64)
    } else if v == 8 {
        Ok(RecordType::Zero)
    } else if v == 9 {
        Ok(RecordType::One)
    } else if v >= 12 && v % 2 == 0 {
        Ok(RecordType::Blob(((v - 12) / 2) as u64))
    } else if v >= 13 && v % 2 == 1 {
        Ok(RecordType::Text(((v - 13) / 2) as u64))
    } else {
        Err(RecordError::ReservedSerialType(v))
    }
}

/// The number of value bytes a serial type occupies.
pub open spec fn spec_type_width(t: RecordType) -> int {
    match t {
        RecordType::Null => 0,
        RecordType::I8 => 1,
        RecordType::I16 => 2,
        RecordType::I24 => 3,
        RecordType::I32 => 4,
        RecordType::I48 => 6,
        RecordType::I64 => 8,
        RecordType::F64 => 8,
        RecordType::Zero => 0,
        RecordType::One => 0,
        RecordType::Blob(n) => n as int,
        RecordType::Text(n) => n as int,
    }
}

/// The sum of the value widths of a serial-type run.
pub open spec fn spec_width_sum(types: Seq<RecordType>) -> int
    decreases types.len(),
{
    if types.len() == 0 {
        0
    } else {
        spec_type_width(types[0]) + spec_width_sum(types.drop_first())
    }
}

/// The value a serial type makes of its bytes. Integer widths are
/// sign-extended; an eight-byte float keeps its bit pattern.
pub open spec fn spec_type_value(t: RecordType, s: Seq<u8>) -> RecordV {
    match t {
        RecordType::Null => RecordV::Null,
        RecordType::I8 => RecordV::Integer(spec_signed_be(s)),
        RecordType::I16 => RecordV::Integer(spec_signed_be(s)),
        RecordType::I24 => RecordV::Integer(spec_signed_be(s)),
        RecordType::I32 => RecordV::Integer(spec_signed_be(s)),
        RecordType::I48 => RecordV::Integer(spec_signed_be(s)),
        RecordType::I64 => RecordV::Integer(spec_signed_be(s)),
        RecordType::F64 => RecordV::Float(be_uint(s) as u64),
        RecordType::Zero => RecordV::Integer(0),
        RecordType::One => RecordV::Integer(1),
        RecordType::Blob(_) => RecordV::Blob(s),
        RecordType::Text(_) => RecordV::Text(s),
    }
}

/// The serial types read greedily from `hdr` starting at `pos`: parsing
/// stops at the end or at a truncated varint, and a reserved value is an
/// error.
pub open spec fn spec_parse_types(hdr: Seq<u8>, pos: int) -> Result<Seq<RecordType>, RecordError>
    decreases hdr.len() - pos,
{
    if pos < 0 || pos >= hdr.len() {
        Ok(Seq::empty())
    } else {
        match spec_varint(hdr, pos) {
            None => Ok(Seq::empty()),
            Some((t, n)) => match spec_record_type(t) {
                Err(e) => Err(e),
                Ok(rt) => if n < 1 || pos + n > hdr.len() {
                    Ok(Seq::empty())
                } else {
                    match spec_parse_types(hdr, pos + n) {
                        Ok(rest) => Ok(seq![rt] + rest),
                        Err(e) => Err(e),
                    }
                },
            },
        }
    }
}

/// The values read in order from `payload` starting at `off`, one per
/// serial type, together with the number of value bytes consumed.
pub open spec fn spec_read_values(payload: Seq<u8>, off: int, types: Seq<RecordType>) -> Result<
    (Seq<RecordV>, int),
    RecordError,
>
    decreases types.len(),
{
    if types.len() == 0 {
        Ok((Seq::empty(), 0))
    } else {
        let t = types[0];
        let w = spec_type_width(t);
        if off < 0 || off + w > payload.len() {
            Err(RecordError::ShortPayload)
        } else {
            let s = payload.subrange(off, off + w);
            if (t matches RecordType::Text(_)) && !valid_utf8(s) {
                Err(RecordError::InvalidUtf8)
            } else {
                match spec_read_values(payload, off + w, types.drop_first()) {
                    Ok((rest, c)) => Ok((seq![spec_type_value(t, s)] + rest, w + c)),
                    Err(e) => Err(e),
                }
            }
        }
    }
}

/// What decoding a whole row payload yields: the header-size varint, the
/// serial-type run it delimits, then the packed values.
pub open spec fn spec_read_row(payload: Seq<u8>) -> Result<Seq<RecordV>, RecordError> {
    match spec_varint(payload, 0) {
        None => Err(RecordError::VarintTruncated),
        Some((h, first)) => {
            if h < first || h > payload.len() {
                Err(RecordError::ShortPayload)
            } else {
                match spec_parse_types(payload.subrange(first, h as int), 0) {
                    Err(e) => Err(e),
                    Ok(types) => match spec_read_values(payload, h as int, types) {
                        Ok((vals, _)) => Ok(vals),
                        Err(e) => Err(e),
                    },
                }
            }
        },
    }
}

/// When a row decodes, the value bytes consumed after the header are
/// exactly the sum of the widths its serial types imply.
pub proof fn lemma_record_bytes_consumed(payload: Seq<u8>, off: int, types: Seq<RecordType>)
    requires
        spec_read_values(payload, off, types) is Ok,
    ensures
        spec_read_values(payload, off, types).unwrap().1 == spec_width_sum(types),
        types.len() > 0 ==> off + spec_width_sum(types) <= payload.len(),
    decreases types.len(),
{
    if types.len() > 0 {
        let w = spec_type_width(types[0]);
        lemma_record_bytes_consumed(payload, off + w, types.drop_first());
    }
}

impl Record {
    /// Reads one value of kind `t` from `payload` at `off`, checking that
    /// the bytes are there and that text is valid UTF-8.
    fn read_type(t: RecordType, payload: &[u8], off: usize) -> (r: Result<Record, RecordError>)
        requires
            off <= payload@.len(),
        ensures
            ({
                let w = spec_type_width(t);
                match r {
                    Ok(rec) => {
                        &&& off + w <= payload@.len()
                        &&& rec@ == spec_type_value(t, payload@.subrange(off as int, off + w))
                        &&& (t matches RecordType::Text(_) ==> valid_utf8(
                            payload@.subrange(off as int, off + w),
                        ))
                    },
                    Err(RecordError::ShortPayload) => off + w > payload@.len(),
                    Err(RecordError::InvalidUtf8) => {
                        &&& off + w <= payload@.len()
                        &&& t matches RecordType::Text(_)
                        &&& !valid_utf8(payload@.subrange(off as int, off + w))
                    },
                    Err(_) => false,
                }
            }),
    {
        let n = payload.len();
        match t {
            RecordType::Null => Ok(Record::Null),
            RecordType::I8 => {
                if off >= n || n - off < 1 {
                    return Err(RecordError::ShortPayload);
                }
                Ok(Record::Integer(read_signed_be(payload, off, 1)))
            },
            RecordType::I16 => {
                if off >= n || n - off < 2 {
                    return Err(RecordError::ShortPayload);
                }
                Ok(Record::Integer(read_signed_be(payload, off, 2)))
            },
            RecordType::I24 => {
                if off >= n || n - off < 3 {
                    return Err(RecordError::ShortPayload);
                }
                Ok(Record::Integer(read_signed_be(payload, off, 3)))
            },
            RecordType::I32 => {
                if off >= n || n - off < 4 {
                    return Err(RecordError::ShortPayload);
                }
                Ok(Record::Integer(read_signed_be(payload, off, 4)))
            },
            RecordType::I48 => {
                if off >= n || n - off < 6 {
                    return Err(RecordError::ShortPayload);
                }
                Ok(Record::Integer(read_signed_be(payload, off, 6)))
            },
            RecordType::I64 => {
                if off >= n || n - off < 8 {
                    return Err(RecordError::ShortPayload);
                }
                Ok(Record::Integer(read_signed_be(payload, off, 8)))
            },
            RecordType::F64 => {
                if off >= n || n - off < 8 {
                    return Err(RecordError::ShortPayload);
                }
                Ok(Record::Float(read_be_uint(payload, off, 8)))
            },
            RecordType::Zero => Ok(Record::Integer(0)),
            RecordType::One => Ok(Record::Integer(1)),
            RecordType::Blob(len) => {
                if off > n {
                    return Err(RecordError::ShortPayload);
                }
                if len > (n - off) as u64 {
                    return Err(RecordError::ShortPayload);
                }
                let len = len as usize;
                Ok(Record::Blob(copy_range(payload, off, off + len)))
            },
            RecordType::Text(len) => {
                if off > n {
                    return Err(RecordError::ShortPayload);
                }
                if len > (n - off) as u64 {
                    return Err(RecordError::ShortPayload);
                }
                let len = len as usize;
                let body = copy_range(payload, off, off + len);
                if !is_valid_utf8(body.as_slice()) {
                    return Err(RecordError::InvalidUtf8);
                }
                Ok(Record::Text(body))
            },
        }
    }

    /// Decodes a row payload into its value sequence.
    pub fn read_row(payload: &[u8]) -> (r: Result<Vec<Record>, RecordError>)
        ensures
            match r {
                Ok(v) => spec_read_row(payload@) matches Ok(s) && v.deep_view() == s,
                Err(e) => spec_read_row(payload@) == Err::<Seq<RecordV>, RecordError>(e),
            },
    {
        let (hv, first) = match Varint::read_sized(payload, 0) {
            Ok(p) => p,
            Err(_) => {
                return Err(RecordError::VarintTruncated);
            },
        };
        let h = hv.0;
        if h < 0 || (h as u64) < (first as u64) || (h as u64) > (payload.len() as u64) {
            return Err(RecordError::ShortPayload);
        }
        let h = h as usize;
        let hdr: &[u8] = &payload[first..h];
        let ghost hdrs = payload@.subrange(first as int, h as int);
        let mut types: Vec<RecordType> = Vec::new();
        let mut pos: usize = 0;
        loop
            invariant_except_break
                hdr@ == hdrs,
                pos <= hdrs.len(),
                spec_varint(payload@, 0) == Some((hv.0, first as int)),
                0 <= hv.0 && first <= hv.0 && hv.0 <= payload@.len(),
                h == hv.0,
                hdrs == payload@.subrange(first as int, h as int),
                match spec_parse_types(hdrs, pos as int) {
                    Ok(rest) => spec_parse_types(hdrs, 0) == Ok::<Seq<RecordType>, RecordError>(types@ + rest),
                    Err(e) => spec_parse_types(hdrs, 0) == Err::<Seq<RecordType>, RecordError>(e),
                },
            ensures
                spec_parse_types(hdrs, 0) == Ok::<Seq<RecordType>, RecordError>(types@),
            decreases hdrs.len() - pos,
        {
            if pos >= hdr.len() {
                proof {
                    assert(spec_parse_types(hdrs, pos as int) == Ok::<Seq<RecordType>, RecordError>(Seq::empty()));
                    assert(types@ + Seq::<RecordType>::empty() =~= types@);
                }
                break ;
            }
            let (tv, n) = match Varint::read_sized(hdr, pos) {
                Ok(p) => p,
                Err(_) => {
                    proof {
                        assert(spec_parse_types(hdrs, pos as int)
                            == Ok::<Seq<RecordType>, RecordError>(Seq::empty()));
                        assert(types@ + Seq::<RecordType>::empty() =~= types@);
                    }
                    break ;
                },
            };
            let rt = match record_type_of(tv.0) {
                Ok(rt) => rt,
                Err(e) => {
                    proof {
                        assert(spec_parse_types(hdrs, pos as int)
                            == Err::<Seq<RecordType>, RecordError>(e));
                        assert(spec_parse_types(hdrs, 0)
                            == Err::<Seq<RecordType>, RecordError>(e));
                        assert(spec_varint(payload@, 0) == Some((hv.0, first as int)));
                        assert(!(hv.0 < first || hv.0 > payload@.len()));
                        assert(payload@.subrange(first as int, hv.0 as int) == hdrs);
                        assert(spec_read_row(payload@) == Err::<Seq<RecordV>, RecordError>(e));
                    }
                    return Err(e);
                },
            };
            proof {
                let rest0 = spec_parse_types(hdrs, pos as int);
                let rest1 = spec_parse_types(hdrs, pos + n);
                assert(rest0 == match rest1 {
                    Ok(rest) => Ok(seq![rt] + rest),
                    Err(e) => Err::<Seq<RecordType>, RecordError>(e),
                });
                if rest1 is Ok {
                    assert(types@ + (seq![rt] + rest1.unwrap()) =~= types@.push(rt)
                        + rest1.unwrap());
                }
            }
            types.push(rt);
            pos = pos + n;
        }
        // now read one value per serial type, walking the payload
        let mut values: Vec<Record> = Vec::new();
        let mut off: usize = h;
        let mut i: usize = 0;
        let n_types = types.len();
        proof {
            assert(types@.skip(0) =~= types@);
            assert(values.deep_view() =~= Seq::<RecordV>::empty());
            let rv = spec_read_values(payload@, off as int, types@);
            if rv is Ok {
                assert(values.deep_view() + rv.unwrap().0 =~= rv.unwrap().0);
            }
        }
        while i < n_types
            invariant
                n_types == types@.len(),
                i <= n_types,
                off <= payload@.len(),
                spec_parse_types(hdrs, 0) == Ok::<Seq<RecordType>, RecordError>(types@),
                spec_read_row(payload@) == match spec_read_values(
                    payload@,
                    off as int,
                    types@.skip(i as int),
                ) {
                    Ok((vals, _)) => Ok::<Seq<RecordV>, RecordError>(values.deep_view() + vals),
                    Err(e) => Err::<Seq<RecordV>, RecordError>(e),
                },
            decreases n_types - i,
        {
            let t = types[i];
            proof {
                assert(types@.skip(i as int)[0] == t);
                assert(types@.skip(i as int).drop_first() =~= types@.skip(i + 1));
            }
            let rec = match Record::read_type(t, payload, off) {
                Ok(rec) => rec,
                Err(e) => {
                    proof {
                        assert(spec_read_values(payload@, off as int, types@.skip(i as int))
                            == Err::<(Seq<RecordV>, int), RecordError>(e));
                    }
                    return Err(e);
                },
            };
            let w = type_width_of(t, payload.len());
            proof {
                let s = payload@.subrange(off as int, off + spec_type_width(t));
                let rest1 = spec_read_values(payload@, off + spec_type_width(t), types@.skip(i + 1));
                if rest1 is Ok {
                    assert(values.deep_view() + (seq![spec_type_value(t, s)] + rest1.unwrap().0)
                        =~= values.deep_view().push(rec@) + rest1.unwrap().0);
                    assert(values.deep_view().push(rec@) =~= {
                        let mut v2 = values.deep_view();
                        v2.push(rec@)
                    });
                }
            }
            let ghost old_values = values.deep_view();
            values.push(rec);
            proof {
                assert(values.deep_view() =~= old_values.push(rec@));
            }
            off = off + w;
            i += 1;
        }
        proof {
            assert(types@.skip(n_types as int) =~= Seq::<RecordType>::empty());
            assert(values.deep_view() + Seq::<RecordV>::empty() =~= values.deep_view());
        }
        Ok(values)
    }
}

/// Maps a serial-type value to its kind, rejecting reserved values.
fn record_type_of(v: i64) -> (r: Result<RecordType, RecordError>)
    ensures
        r == spec_record_type(v),
{
    if v == 0 {
        Ok(RecordType::Null)
    } else if v == 1 {
        Ok(RecordType::I8)
    } else if v == 2 {
        Ok(RecordType::I16)
    } else if v == 3 {
        Ok(RecordType::I24)
    } else if v == 4 {
        Ok(RecordType::I32)
    } else if v == 5 {
        Ok(RecordType::I48)
    } else if v == 6 {
        Ok(RecordType::I64)
    } else if v == 7 {
        Ok(RecordType::F64)
    } else if v == 8 {
        Ok(RecordType::Zero)
    } else if v == 9 {
        Ok(RecordType::One)
    } else if v >= 12 && v % 2 == 0 {
        Ok(RecordType::Blob(((v - 12) / 2) as u64))
    } else if v >= 13 && v % 2 == 1 {
        Ok(RecordType::Text(((v - 13) / 2) as u64))
    } else {
        Err(RecordError::ReservedSerialType(v))
    }
}

/// The width of `t`, clamped into `usize` by the caller's payload length;
/// only called once the value's bytes are known to be in bounds.
fn type_width_of(t: RecordType, limit: usize) -> (r: usize)
    requires
        spec_type_width(t) <= limit,
    ensures
        r == spec_type_width(t),
{
    match t {
        RecordType::Null => 0,
        RecordType::I8 => 1,
        RecordType::I16 => 2,
        RecordType::I24 => 3,
        RecordType::I32 => 4,
        RecordType::I48 => 6,
        RecordType::I64 => 8,
        RecordType::F64 => 8,
        RecordType::Zero => 0,
        RecordType::One => 0,
        RecordType::Blob(n) => n as usize,
        RecordType::Text(n) => n as usize,
    }
}

/// Relies on core::str::from_utf8: it accepts exactly the byte sequences
/// that are valid UTF-8.
#[verifier::external_body]
fn is_valid_utf8(b: &[u8]) -> (r: bool)
    ensures
        r == valid_utf8(b@),
{
    core::str::from_utf8(b).is_ok()
}

} // verus!
