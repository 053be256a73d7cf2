use vstd::prelude::*;
use crate::bytes::{
    lemma_u32_le_bytes_inverse, lemma_u32_le_roundtrip, push_u32_le, read_u32_le, u32_from_le,
    u32_le_bytes,
};

verus! {

/// The plain view of serialized per-network key material: one network code
/// with that network's root key bytes.
pub open spec fn entries_view(s: Seq<(u32, Vec<u8>)>) -> Seq<(u32, Seq<u8>)> {
    s.map_values(|e: (u32, Vec<u8>)| (e.0, e.1@))
}

/// One encoded entry: network code, key length, key bytes.
pub open spec fn spec_encode_entry(e: (u32, Seq<u8>)) -> Seq<u8> {
    u32_le_bytes(e.0) + u32_le_bytes(e.1.len() as u32) + e.1
}

/// Encoded entries, in order.
pub open spec fn spec_encode_list(es: Seq<(u32, Seq<u8>)>) -> Seq<u8>
    decreases es.len(),
{
    if es.len() == 0 {
        Seq::empty()
    } else {
        spec_encode_entry(es[0]) + spec_encode_list(es.skip(1))
    }
}

/// The serialized keychain plaintext: entry count, then the entries.
pub open spec fn spec_encode(es: Seq<(u32, Seq<u8>)>) -> Seq<u8> {
    u32_le_bytes(es.len() as u32) + spec_encode_list(es)
}

/// Reads `n` encoded entries covering all of `s`, or nothing if the bytes
/// are malformed or left over.
pub open spec fn spec_decode_list(s: Seq<u8>, n: nat) -> Option<Seq<(u32, Seq<u8>)>>
    decreases n,
{
    if n == 0 {
        if s.len() == 0 {
            Some(Seq::empty())
        } else {
            None
        }
    } else if s.len() < 8 {
        None
    } else {
        let code = u32_from_le(s.subrange(0, 4));
        let dlen = u32_from_le(s.subrange(4, 8)) as int;
        if s.len() < 8 + dlen {
            None
        } else {
            match spec_decode_list(s.skip(8 + dlen), (n - 1) as nat) {
                Some(rest) => Some(seq![(code, s.subrange(8, 8 + dlen))] + rest),
                None => None,
            }
        }
    }
}

/// Reads a serialized keychain plaintext back, or nothing if it is
/// malformed: never a partial result.
pub open spec fn spec_decode(s: Seq<u8>) -> Option<Seq<(u32, Seq<u8>)>> {
    if s.len() < 4 {
        None
    } else {
        spec_decode_list(s.skip(4), u32_from_le(s.subrange(0, 4)) as nat)
    }
}

/// Encoding one more entry appends its bytes.
pub proof fn lemma_encode_list_push(es: Seq<(u32, Seq<u8>)>, e: (u32, Seq<u8>))
    ensures
        spec_encode_list(es.push(e)) == spec_encode_list(es) + spec_encode_entry(e),
    decreases es.len(),
{
    if es.len() == 0 {
        let p = es.push(e);
        assert(p[0] == e);
        assert(p.skip(1) =~= Seq::<(u32, Seq<u8>)>::empty());
        assert(spec_encode_list(p) == spec_encode_entry(e) + spec_encode_list(p.skip(1)));
        assert(spec_encode_list(p.skip(1)) == Seq::<u8>::empty());
        assert(spec_encode_entry(e) + Seq::<u8>::empty() =~= spec_encode_entry(e));
        assert(spec_encode_list(es) + spec_encode_entry(e) =~= spec_encode_entry(e));
    } else {
        assert(es.push(e).skip(1) =~= es.skip(1).push(e));
        lemma_encode_list_push(es.skip(1), e);
        assert(spec_encode_list(es.push(e)) =~= spec_encode_list(es) + spec_encode_entry(e));
    }
}

/// Serializes per-network key material.
pub(crate) fn encode_entries(entries: &Vec<(u32, Vec<u8>)>) -> (r: Vec<u8>)
    requires
        entries@.len() <= 0xffff_ffff,
        forall|i: int|
            0 <= i < entries@.len() ==> #[trigger] entries@[i].1@.len() <= 0xffff_ffff,
    ensures
        r@ == spec_encode(entries_view(entries@)),
{
    let ghost view = entries_view(entries@);
    let mut out: Vec<u8> = Vec::new();
    push_u32_le(&mut out, entries.len() as u32);
    assert(view.take(0) =~= Seq::empty());
    assert(out@ =~= u32_le_bytes(view.len() as u32) + spec_encode_list(view.take(0)));
    let mut i: usize = 0;
    while i < entries.len()
        invariant
            i <= entries@.len(),
            entries@.len() <= 0xffff_ffff,
            forall|k: int|
                0 <= k < entries@.len() ==> #[trigger] entries@[k].1@.len() <= 0xffff_ffff,
            view == entries_view(entries@),
            out@ == u32_le_bytes(view.len() as u32) + spec_encode_list(view.take(i as int)),
        decreases entries@.len() - i,
    {
        let code = entries[i].0;
        let dlen = entries[i].1.len();
        push_u32_le(&mut out, code);
        push_u32_le(&mut out, dlen as u32);
        out.extend_from_slice(entries[i].1.as_slice());
        proof {
            assert(view.take(i + 1) =~= view.take(i as int).push(view[i as int]));
            lemma_encode_list_push(view.take(i as int), view[i as int]);
            assert(out@ =~= u32_le_bytes(view.len() as u32) + spec_encode_list(
                view.take(i + 1),
            ));
        }
        i = i + 1;
    }
    proof {
        assert(view.take(entries@.len() as int) =~= view);
    }
    out
}

/// Copies `v[a..b]` into a fresh vector.
pub(crate) fn copy_range(v: &Vec<u8>, a: usize, b: usize) -> (r: Vec<u8>)
    requires
        a <= b <= v@.len(),
    ensures
        r@ == v@.subrange(a as int, b as int),
{
    let mut out: Vec<u8> = Vec::new();
    let mut i: usize = a;
    while i < b
        invariant
            a <= i <= b <= v@.len(),
            out@ == v@.subrange(a as int, i as int),
        decreases b - i,
    {
        out.push(v[i]);
        proof {
            assert(out@ =~= v@.subrange(a as int, i + 1));
        }
        i = i + 1;
    }
    out
}

/// Reads serialized per-network key material back; `None` on any malformed
/// or leftover bytes.
pub(crate) fn decode_entries(s: &Vec<u8>) -> (r: Option<Vec<(u32, Vec<u8>)>>)
    ensures
        match r {
            Some(es) => spec_decode(s@) == Some(entries_view(es@)),
            None => spec_decode(s@) is None,
        },
{
    let n = s.len();
    if n < 4 {
        return None;
    }
    let count = read_u32_le(s, 0);
    let mut acc: Vec<(u32, Vec<u8>)> = Vec::new();
    let mut off: usize = 4;
    let mut i: u32 = 0;
    assert(s@.subrange(0, 4) =~= s@.take(4).subrange(0, 4));
    while i < count
        invariant
            4 <= off <= s@.len(),
            i <= count,
            s@.len() == n,
            spec_decode(s@) == match spec_decode_list(s@.skip(off as int), (count - i) as nat) {
                Some(rest) => Some(entries_view(acc@) + rest),
                None => None::<Seq<(u32, Seq<u8>)>>,
            },
        decreases count - i,
    {
        if n - off < 8 {
            proof {
                assert(s@.skip(off as int).len() < 8);
            }
            return None;
        }
        let code = read_u32_le(s, off);
        let dlen32 = read_u32_le(s, off + 4);
        let dlen = dlen32 as usize;
        proof {
            let rem = s@.skip(off as int);
            assert(rem.subrange(0, 4) =~= s@.subrange(off as int, off as int + 4));
            assert(rem.subrange(4, 8) =~= s@.subrange(off as int + 4, off as int + 8));
        }
        if n - off - 8 < dlen {
            proof {
                assert(s@.skip(off as int).len() < 8 + dlen);
            }
            return None;
        }
        let data = copy_range(s, off + 8, off + 8 + dlen);
        proof {
            let rem = s@.skip(off as int);
            assert(rem.subrange(8, 8 + dlen as int) =~= s@.subrange(
                off as int + 8,
                off as int + 8 + dlen as int,
            ));
            assert(rem.skip(8 + dlen as int) =~= s@.skip(off as int + 8 + dlen as int));
        }
        acc.push((code, data));
        proof {
            let rem = s@.skip(off as int);
            let old_acc_view = entries_view(acc@.drop_last());
            assert(acc@.drop_last() =~= acc@.subrange(0, acc@.len() - 1));
            assert(entries_view(acc@) =~= entries_view(acc@.drop_last()).push(
                (code, data@),
            ));
            assert(forall|rest: Seq<(u32, Seq<u8>)>|
                entries_view(acc@.drop_last()) + (seq![(code, data@)] + rest) =~= entries_view(
                    acc@,
                ) + rest);
        }
        off = off + 8 + dlen;
        i = i + 1;
    }
    if off != n {
        proof {
            assert(s@.skip(off as int).len() != 0);
        }
        return None;
    }
    proof {
        assert(s@.skip(off as int).len() == 0);
        assert(entries_view(acc@) + Seq::<(u32, Seq<u8>)>::empty() =~= entries_view(acc@));
    }
    Some(acc)
}

/// Decoding is the inverse of encoding: a serialized keychain reads back as
/// exactly the entries that were written.
pub proof fn lemma_decode_encode(es: Seq<(u32, Seq<u8>)>)
    requires
        es.len() <= 0xffff_ffff,
        forall|i: int| 0 <= i < es.len() ==> #[trigger] es[i].1.len() <= 0xffff_ffff,
    ensures
        spec_decode(spec_encode(es)) == Some(es),
{
    let blob = spec_encode(es);
    lemma_u32_le_roundtrip(es.len() as u32);
    assert(blob.subrange(0, 4) =~= u32_le_bytes(es.len() as u32));
    assert(blob.skip(4) =~= spec_encode_list(es));
    lemma_decode_encode_list(es);
}

proof fn lemma_decode_encode_list(es: Seq<(u32, Seq<u8>)>)
    requires
        forall|i: int| 0 <= i < es.len() ==> #[trigger] es[i].1.len() <= 0xffff_ffff,
    ensures
        spec_decode_list(spec_encode_list(es), es.len() as nat) == Some(es),
    decreases es.len(),
{
    let s = spec_encode_list(es);
    if es.len() == 0 {
        assert(s =~= Seq::<u8>::empty());
        assert(Some(Seq::<(u32, Seq<u8>)>::empty()) == spec_decode_list(s, 0));
        assert(es =~= Seq::<(u32, Seq<u8>)>::empty());
    } else {
        let e = es[0];
        let rest = es.skip(1);
        let erest = spec_encode_list(rest);
        let dlen = e.1.len() as int;
        assert(s =~= spec_encode_entry(e) + erest);
        lemma_u32_le_roundtrip(e.0);
        lemma_u32_le_roundtrip(e.1.len() as u32);
        assert(s.len() == 8 + dlen + erest.len());
        assert(s.subrange(0, 4) =~= u32_le_bytes(e.0));
        assert(s.subrange(4, 8) =~= u32_le_bytes(e.1.len() as u32));
        assert(s.subrange(8, 8 + dlen) =~= e.1);
        assert(s.skip(8 + dlen) =~= erest);
        lemma_decode_encode_list(rest);
        assert(seq![(e.0, e.1)] + rest =~= es);
        assert((e.0, e.1) == e);
    }
}

} // verus!
