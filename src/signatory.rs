//! Signatory sets and the byte encoding of their snapshots.
//!
//! A snapshot is encoded as its time (eight big-endian bytes) followed by one record per
//! signatory, in order: the voting power (eight big-endian bytes), then the 33-byte
//! compressed public key. Nothing else is stored, so a byte string decodes when its
//! length is eight plus a multiple of the record length.
use crate::bytes::{
    append_bytes, be_bytes, be_value, copy_range, lemma_be_bytes_value, read_u64_be,
    write_u64_be,
};
use vstd::prelude::*;

verus! {

/// Length of a compressed secp256k1 public key.
pub const PUBKEY_LEN: usize = 33;

/// Length of one encoded signatory: voting power, then public key.
pub const RECORD_LEN: usize = 41;

/// Length of the encoded snapshot time.
pub const TIME_LEN: usize = 8;

/// A custodial key holder and its voting weight.
#[derive(Clone, Debug, PartialEq, Eq)]
pub struct Signatory {
    pub voting_power: u64,
    pub pubkey: Vec<u8>,
}

/// An ordered collection of signatories.
#[derive(Clone, Debug, PartialEq, Eq)]
pub struct SignatorySet {
    pub signatories: Vec<Signatory>,
}

/// A signatory set as it stood at a given time.
#[derive(Clone, Debug, PartialEq, Eq)]
pub struct SignatorySetSnapshot {
    pub signatories: SignatorySet,
    pub time: u64,
}

/// A signatory as plain values: voting power and public key bytes.
pub type SignatoryModel = (u64, Seq<u8>);

/// A snapshot as plain values: its signatories in order, and its time.
pub type SnapshotModel = (Seq<SignatoryModel>, u64);

/// The plain values of each signatory of `list`, in order.
pub open spec fn views(list: Seq<Signatory>) -> Seq<SignatoryModel> {
    Seq::new(list.len(), |i: int| list[i]@)
}

impl View for Signatory {
    type V = SignatoryModel;

    open spec fn view(&self) -> SignatoryModel {
        (self.voting_power, self.pubkey@)
    }
}

impl View for SignatorySet {
    type V = Seq<SignatoryModel>;

    open spec fn view(&self) -> Seq<SignatoryModel> {
        views(self.signatories@)
    }
}

impl View for SignatorySetSnapshot {
    type V = SnapshotModel;

    open spec fn view(&self) -> SnapshotModel {
        (self.signatories@, self.time)
    }
}

/// Every public key of `ss` has the compressed length.
pub open spec fn signatories_wf(ss: Seq<SignatoryModel>) -> bool {
    forall|i: int| 0 <= i < ss.len() ==> (#[trigger] ss[i]).1.len() == PUBKEY_LEN
}

impl SignatorySetSnapshot {
    /// Every public key of the snapshot has the compressed length.
    pub open spec fn wf(&self) -> bool {
        signatories_wf(self@.0)
    }
}

/// The bytes of one signatory record.
pub open spec fn encode_signatory(s: SignatoryModel) -> Seq<u8> {
    be_bytes(s.0) + s.1
}

/// The records of `ss`, one after the other.
pub open spec fn encode_signatories(ss: Seq<SignatoryModel>) -> Seq<u8>
    decreases ss.len(),
{
    if ss.len() == 0 {
        Seq::empty()
    } else {
        encode_signatories(ss.drop_last()) + encode_signatory(ss.last())
    }
}

/// The bytes of a snapshot: its time, then its signatory records.
pub open spec fn encode_snapshot(m: SnapshotModel) -> Seq<u8> {
    be_bytes(m.1) + encode_signatories(m.0)
}

/// The signatory whose record stands at position `i` of the encoded snapshot `b`.
pub open spec fn decode_record(b: Seq<u8>, i: int) -> SignatoryModel {
    let o = TIME_LEN + RECORD_LEN * i;
    (be_value(b.subrange(o, o + 8)) as u64, b.subrange(o + 8, o + RECORD_LEN))
}

/// The snapshot that `b` encodes, if it has the length of an encoded snapshot.
pub open spec fn decode_snapshot(b: Seq<u8>) -> Option<SnapshotModel> {
    if b.len() >= TIME_LEN && (b.len() - TIME_LEN) % (RECORD_LEN as int) == 0 {
        let n = (b.len() - TIME_LEN) / (RECORD_LEN as int);
        Some((Seq::new(n as nat, |i: int| decode_record(b, i)), be_value(b.subrange(0, 8)) as u64))
    } else {
        None
    }
}

/// The records of well-formed signatories have fixed length, and each one sits at its
/// index times the record length.
proof fn lemma_encode_signatories_layout(ss: Seq<SignatoryModel>)
    requires
        signatories_wf(ss),
    ensures
        encode_signatories(ss).len() == RECORD_LEN * ss.len(),
        forall|i: int|
            0 <= i < ss.len() ==> encode_signatories(ss).subrange(
                RECORD_LEN * i,
                RECORD_LEN * i + RECORD_LEN,
            ) == encode_signatory(#[trigger] ss[i]),
    decreases ss.len(),
{
    if ss.len() > 0 {
        let p = ss.drop_last();
        assert forall|i: int| 0 <= i < p.len() implies (#[trigger] p[i]).1.len() == PUBKEY_LEN by {
            assert(p[i] == ss[i]);
        }
        lemma_encode_signatories_layout(p);
        let e = encode_signatories(ss);
        let ep = encode_signatories(p);
        let last = encode_signatory(ss.last());
        assert(ss[ss.len() - 1].1.len() == PUBKEY_LEN);
        assert(last.len() == RECORD_LEN);
        assert forall|i: int| 0 <= i < ss.len() implies e.subrange(
            RECORD_LEN * i,
            RECORD_LEN * i + RECORD_LEN,
        ) == encode_signatory(#[trigger] ss[i]) by {
            if i < p.len() {
                assert(p[i] == ss[i]);
                assert(e.subrange(RECORD_LEN * i, RECORD_LEN * i + RECORD_LEN) =~= ep.subrange(
                    RECORD_LEN * i,
                    RECORD_LEN * i + RECORD_LEN,
                ));
            } else {
                assert(e.subrange(RECORD_LEN * i, RECORD_LEN * i + RECORD_LEN) =~= last);
            }
        }
    }
}

/// Decoding the encoding of a well-formed snapshot gives the snapshot back.
pub proof fn lemma_snapshot_round_trip(m: SnapshotModel)
    requires
        signatories_wf(m.0),
    ensures
        decode_snapshot(encode_snapshot(m)) == Some(m),
{
    let ss = m.0;
    let n = ss.len();
    let e = encode_signatories(ss);
    let b = encode_snapshot(m);
    lemma_encode_signatories_layout(ss);
    lemma_be_bytes_value(m.1);
    assert(b.len() == TIME_LEN + RECORD_LEN * n);
    assert((b.len() - TIME_LEN) % (RECORD_LEN as int) == 0 && (b.len() - TIME_LEN) / (
    RECORD_LEN as int) == n) by (nonlinear_arith)
        requires
            b.len() - TIME_LEN == RECORD_LEN * n,
    ;
    assert(b.subrange(0, 8) =~= be_bytes(m.1));
    let d = Seq::new(n, |i: int| decode_record(b, i));
    assert forall|i: int| 0 <= i < n implies #[trigger] d[i] == ss[i] by {
        let o = TIME_LEN + RECORD_LEN * i;
        let rec = e.subrange(RECORD_LEN * i, RECORD_LEN * i + RECORD_LEN);
        assert(rec == encode_signatory(ss[i]));
        assert(ss[i].1.len() == PUBKEY_LEN);
        assert(b.subrange(o, o + 8) =~= rec.subrange(0, 8));
        assert(rec.subrange(0, 8) =~= be_bytes(ss[i].0));
        lemma_be_bytes_value(ss[i].0);
        assert(b.subrange(o + 8, o + RECORD_LEN) =~= rec.subrange(8, RECORD_LEN as int));
        assert(rec.subrange(8, RECORD_LEN as int) =~= ss[i].1);
    }
    assert(d =~= ss);
}

impl SignatorySetSnapshot {
    /// The byte encoding of the snapshot.
    pub fn encode(&self) -> (r: Vec<u8>)
        ensures
            r@ == encode_snapshot(self@),
    {
        let mut out: Vec<u8> = Vec::new();
        write_u64_be(&mut out, self.time);
        let list = &self.signatories.signatories;
        let ghost ss = self@.0;
        let mut i: usize = 0;
        while i < list.len()
            invariant
                i <= list@.len(),
                ss == views(list@),
                out@ == be_bytes(self.time) + encode_signatories(ss.take(i as int)),
            decreases list@.len() - i,
        {
            let ghost before = out@;
            write_u64_be(&mut out, list[i].voting_power);
            append_bytes(&mut out, list[i].pubkey.as_slice());
            proof {
                let t = ss.take(i + 1);
                assert(t.drop_last() =~= ss.take(i as int));
                assert(t.last() == list@[i as int]@);
                assert(out@ =~= be_bytes(self.time) + encode_signatories(t));
            }
            i = i + 1;
        }
        proof {
            assert(ss.take(list@.len() as int) =~= ss);
        }
        out
    }

    /// Decodes a snapshot from its bytes; `None` where `bytes` has not the length of an
    /// encoded snapshot. The result depends on the bytes alone.
    pub fn decode(bytes: &[u8]) -> (r: Option<SignatorySetSnapshot>)
        ensures
            match r {
                Some(s) => decode_snapshot(bytes@) == Some(s@) && s.wf(),
                None => decode_snapshot(bytes@) is None,
            },
    {
        let len = bytes.len();
        if len < TIME_LEN || (len - TIME_LEN) % RECORD_LEN != 0 {
            return None;
        }
        let n = (len - TIME_LEN) / RECORD_LEN;
        proof {
            assert(len - TIME_LEN == RECORD_LEN * n) by (nonlinear_arith)
                requires
                    (len - TIME_LEN) % (RECORD_LEN as int) == 0,
                    n == (len - TIME_LEN) / (RECORD_LEN as int),
            ;
        }
        let time = read_u64_be(bytes, 0);
        let ghost want = Seq::new(n as nat, |i: int| decode_record(bytes@, i));
        let mut list: Vec<Signatory> = Vec::new();
        let mut i: usize = 0;
        let mut off: usize = TIME_LEN;
        while i < n
            invariant
                len == bytes@.len(),
                len - TIME_LEN == RECORD_LEN * n,
                i <= n,
                off == TIME_LEN + RECORD_LEN * i,
                want == Seq::new(n as nat, |i: int| decode_record(bytes@, i)),
                views(list@) == want.take(i as int),
                signatories_wf(views(list@)),
            decreases n - i,
        {
            let voting_power = read_u64_be(bytes, off);
            let pubkey = copy_range(bytes, off + 8, off + RECORD_LEN);
            let ghost prev = list@;
            list.push(Signatory { voting_power, pubkey });
            proof {
                let vs = views(list@);
                let pv = views(prev);
                assert(pv.len() == prev.len());
                assert(pv.len() == i);
                assert(list@.len() == i + 1);
                assert(vs.len() == i + 1);
                assert(list@[i as int].pubkey@ == bytes@.subrange(off + 8, off + RECORD_LEN));
                assert(vs[i as int] == decode_record(bytes@, i as int));
                assert(vs[i as int] == want[i as int]);
                assert forall|j: int| 0 <= j < i implies vs[j] == want.take(i + 1)[j] by {
                    assert(vs[j] == pv[j]);
                    assert(pv[j] == want.take(i as int)[j]);
                }
                assert(vs =~= want.take(i + 1));
            }
            i = i + 1;
            off = off + RECORD_LEN;
        }
        proof {
            assert(want.take(n as int) =~= want);
        }
        Some(SignatorySetSnapshot { signatories: SignatorySet { signatories: list }, time })
    }
}

} // verus!
