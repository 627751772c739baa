use vstd::prelude::*;
use crate::error::Error;

verus! {

/// The length of a message head, without its command word.
#[allow(non_upper_case_globals)]
pub const MsgHeadLen: usize = 25;
/// The largest length of a message.
#[allow(non_upper_case_globals)]
pub const MaxMsgLen: usize = 33554406;
/// The most queries a message may go through.
#[allow(non_upper_case_globals)]
pub const MaxMsgTtl: usize = 1000;

/// A decoded message head.
#[allow(non_camel_case_types, non_snake_case)]
pub struct msg {
    pub datalen: usize,
    pub msgNo: u32,
    pub ttlTimeout: u16,
    pub local: u16,
    pub remoteID: u16,
    pub db: MsgDB,
    pub queryID: u32,
    pub uid: u32,
    pub cmd: u32,
}

/// The database part of a message head.
#[allow(non_snake_case)]
pub struct MsgDB {
    pub transactionNo: u32,
}

/// The little-endian 16-bit number at `d[i..i + 2]`.
pub open spec fn le16(d: Seq<u8>, i: int) -> int {
    d[i] + 256 * d[i + 1]
}

/// The little-endian 24-bit number at `d[i..i + 3]`.
pub open spec fn le24(d: Seq<u8>, i: int) -> int {
    d[i] + 256 * d[i + 1] + 65536 * d[i + 2]
}

/// The little-endian 32-bit number at `d[i..i + 4]`.
pub open spec fn le32(d: Seq<u8>, i: int) -> int {
    d[i] + 256 * d[i + 1] + 65536 * d[i + 2] + 16777216 * d[i + 3]
}

/// `m` holds the fields of the message head encoded at the start of `d`.
pub open spec fn decoded_fields(d: Seq<u8>, m: msg) -> bool {
    &&& m.datalen == le24(d, 22)
    &&& m.msgNo == le32(d, 0)
    &&& m.ttlTimeout == le16(d, 4)
    &&& m.local == le16(d, 6)
    &&& m.remoteID == le16(d, 8)
    &&& m.db.transactionNo == le32(d, 10)
    &&& m.queryID == le32(d, 14)
    &&& m.uid == le32(d, 18)
    &&& m.cmd == le32(d, 25)
}

fn read_u16(d: &[u8], i: usize) -> (v: u16)
    requires
        i + 2 <= d@.len(),
    ensures
        v == le16(d@, i as int),
{
    let a = d[i];
    let b = d[i + 1];
    let v = (a as u16) | ((b as u16) << 8u16);
    assert(v == a + 256 * b) by (bit_vector)
        requires
            v == (a as u16) | ((b as u16) << 8u16),
    ;
    v
}

fn read_u24(d: &[u8], i: usize) -> (v: usize)
    requires
        i + 3 <= d@.len(),
    ensures
        v == le24(d@, i as int),
{
    let a = d[i];
    let b = d[i + 1];
    let c = d[i + 2];
    let v = (a as u32) | ((b as u32) << 8u32) | ((c as u32) << 16u32);
    assert(v == a + 256 * b + 65536 * c) by (bit_vector)
        requires
            v == (a as u32) | ((b as u32) << 8u32) | ((c as u32) << 16u32),
    ;
    v as usize
}

fn read_u32(d: &[u8], i: usize) -> (v: u32)
    requires
        i + 4 <= d@.len(),
    ensures
        v == le32(d@, i as int),
{
    let a = d[i];
    let b = d[i + 1];
    let c = d[i + 2];
    let e = d[i + 3];
    let v = (a as u32) | ((b as u32) << 8u32) | ((c as u32) << 16u32) | ((e as u32) << 24u32);
    assert(v == a + 256 * b + 65536 * c + 16777216 * e) by (bit_vector)
        requires
            v == (a as u32) | ((b as u32) << 8u32) | ((c as u32) << 16u32) | ((e as u32) << 24u32),
    ;
    v
}

/// Decodes a message from the start of `data`. An input shorter than the
/// head is refused with `errMsgLen`. The data that the head announces
/// starts with the command word, so an announced length under 4, or an
/// input shorter than the head plus that length, is refused with
/// `errMsgDataLen`. On success the data length comes back beside the
/// decoded head.
pub fn read_one_msg_from_bytes(data: &[u8]) -> (res: Result<(usize, msg), Error>)
    ensures
        data@.len() < MsgHeadLen ==> res matches Err(Error::errMsgLen),
        data@.len() >= MsgHeadLen && (le24(data@, 22) < 4 || data@.len() < MsgHeadLen + le24(
            data@,
            22,
        )) ==> res matches Err(Error::errMsgDataLen),
        data@.len() >= MsgHeadLen && le24(data@, 22) >= 4 && data@.len() >= MsgHeadLen + le24(
            data@,
            22,
        ) ==> (res matches Ok((n, m)) && n == le24(data@, 22) && decoded_fields(data@, m)),
{
    if data.len() < MsgHeadLen {
        return Err(Error::errMsgLen);
    }
    let datalen = read_u24(data, MsgHeadLen - 3);
    if datalen < 4 || data.len() - MsgHeadLen < datalen {
        return Err(Error::errMsgDataLen);
    }
    Ok(
        (
            datalen,
            msg {
                datalen,
                msgNo: read_u32(data, 0),
                ttlTimeout: read_u16(data, 4),
                local: read_u16(data, 6),
                remoteID: read_u16(data, 8),
                db: MsgDB { transactionNo: read_u32(data, 10) },
                queryID: read_u32(data, 14),
                uid: read_u32(data, 18),
                cmd: read_u32(data, MsgHeadLen),
            },
        ),
    )
}

/// A whole message decodes the same whatever bytes follow it: the data
/// length it announces, and every field of its head, come from its own
/// bytes alone.
pub proof fn law_decoding_ignores_following_bytes(d: Seq<u8>, e: Seq<u8>, m: msg)
    requires
        d.len() >= MsgHeadLen,
        le24(d, 22) >= 4,
        d.len() >= MsgHeadLen + le24(d, 22),
    ensures
        le24(d + e, 22) == le24(d, 22),
        (d + e).len() >= MsgHeadLen + le24(d + e, 22),
        decoded_fields(d, m) <==> decoded_fields(d + e, m),
{
    assert forall|i: int| 0 <= i < d.len() implies (d + e)[i] == d[i] by {}
    assert((d + e)[0] == d[0] && (d + e)[1] == d[1] && (d + e)[2] == d[2] && (d + e)[3] == d[3]);
    assert((d + e)[4] == d[4] && (d + e)[5] == d[5] && (d + e)[6] == d[6] && (d + e)[7] == d[7]);
    assert((d + e)[8] == d[8] && (d + e)[9] == d[9] && (d + e)[10] == d[10] && (d + e)[11] == d[11]);
    assert((d + e)[12] == d[12] && (d + e)[13] == d[13] && (d + e)[14] == d[14] && (d + e)[15] == d[15]);
    assert((d + e)[16] == d[16] && (d + e)[17] == d[17] && (d + e)[18] == d[18] && (d + e)[19] == d[19]);
    assert((d + e)[20] == d[20] && (d + e)[21] == d[21] && (d + e)[22] == d[22] && (d + e)[23] == d[23]);
    assert((d + e)[24] == d[24] && (d + e)[25] == d[25] && (d + e)[26] == d[26] && (d + e)[27] == d[27]);
    assert((d + e)[28] == d[28]);
}

} // verus!
