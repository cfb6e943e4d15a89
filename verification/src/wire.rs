use vstd::prelude::*;
use vstd::string::{StrSliceExecFns, StringSliceAdditionalSpecFns};
use vstd::utf8::encode_utf8;
use crate::profile::{PbSample, PbLocation, Profile};

verus! {

/// Base-128 varint encoding, least significant group first, as the binary
/// profile format's wire encoding uses it.
pub open spec fn varint(n: nat) -> Seq<u8>
    decreases n,
{
    if n < 128 {
        seq![n as u8]
    } else {
        seq![(n % 128 + 128) as u8] + varint(n / 128)
    }
}

/// The key of a field: field number and wire type packed into one varint.
pub open spec fn pkey(field: nat, wire: nat) -> Seq<u8> {
    varint(field * 8 + wire)
}

/// A length-delimited payload: its length as a varint, then its bytes.
pub open spec fn delim(payload: Seq<u8>) -> Seq<u8> {
    varint(payload.len()) + payload
}

/// A value-type message: sample-type name and unit, as string indices.
pub open spec fn value_type_msg(t: nat, u: nat) -> Seq<u8> {
    pkey(1, 0) + varint(t) + pkey(2, 0) + varint(u)
}

/// A label message: label key and string value, as string indices.
pub open spec fn label_msg(key_idx: nat, str_idx: nat) -> Seq<u8> {
    pkey(1, 0) + varint(key_idx) + pkey(2, 0) + varint(str_idx)
}

/// The location-identifier fields of one sample. `ids` lists the frames
/// outermost first; the wire order is the reverse, leaf first, as the
/// profile format expects.
pub open spec fn sample_ids_bytes(ids: Seq<usize>) -> Seq<u8>
    decreases ids.len(),
{
    if ids.len() == 0 {
        Seq::empty()
    } else {
        sample_ids_bytes(ids.drop_first()) + pkey(1, 0) + varint(ids.first() as nat)
    }
}

/// One sample message: its location identifiers, its count, and a thread
/// label.
pub open spec fn sample_msg(s: PbSample, label_key: nat) -> Seq<u8> {
    sample_ids_bytes(s.loc_ids@) + pkey(2, 0) + varint(s.count as nat) + pkey(3, 2) + delim(
        label_msg(label_key, s.thread_idx as nat),
    )
}

/// The sample fields of the profile, in sample order.
pub open spec fn samples_bytes(ss: Seq<PbSample>, label_key: nat) -> Seq<u8>
    decreases ss.len(),
{
    if ss.len() == 0 {
        Seq::empty()
    } else {
        samples_bytes(ss.drop_last(), label_key) + pkey(2, 2) + delim(
            sample_msg(ss.last(), label_key),
        )
    }
}

/// A line message: the function identifier of one stack line.
pub open spec fn line_msg(fid: nat) -> Seq<u8> {
    pkey(1, 0) + varint(fid)
}

/// One location message: its nonzero identifier and one line referencing
/// the function of the same identifier.
pub open spec fn location_msg(id: nat) -> Seq<u8> {
    pkey(1, 0) + varint(id) + pkey(4, 2) + delim(line_msg(id))
}

/// One function message: its nonzero identifier and its name as a string
/// index.
pub open spec fn function_msg(id: nat, name_idx: nat) -> Seq<u8> {
    pkey(1, 0) + varint(id) + pkey(2, 0) + varint(name_idx)
}

/// The location fields of the profile: one per real location-table entry,
/// the entry's table position as its identifier.
pub open spec fn locations_bytes(ls: Seq<PbLocation>) -> Seq<u8>
    decreases ls.len(),
{
    if ls.len() <= 1 {
        Seq::empty()
    } else {
        locations_bytes(ls.drop_last()) + pkey(4, 2) + delim(location_msg((ls.len() - 1) as nat))
    }
}

/// The function fields of the profile: one per real location-table entry.
pub open spec fn functions_bytes(ls: Seq<PbLocation>) -> Seq<u8>
    decreases ls.len(),
{
    if ls.len() <= 1 {
        Seq::empty()
    } else {
        functions_bytes(ls.drop_last()) + pkey(5, 2) + delim(
            function_msg((ls.len() - 1) as nat, ls.last().name_idx as nat),
        )
    }
}

/// One string-table field: the string's UTF-8 bytes, length-delimited.
pub open spec fn string_entry(s: Seq<char>) -> Seq<u8> {
    pkey(6, 2) + delim(encode_utf8(s))
}

/// The string-table fields of the profile, in table order.
pub open spec fn strings_bytes(ss: Seq<Seq<char>>) -> Seq<u8>
    decreases ss.len(),
{
    if ss.len() == 0 {
        Seq::empty()
    } else {
        strings_bytes(ss.drop_last()) + string_entry(ss.last())
    }
}

/// The full binary profile message: sample type, samples, locations,
/// functions, string table. A pure function of the profile's value, so
/// the encoding is deterministic.
pub open spec fn profile_bytes(p: Profile) -> Seq<u8> {
    pkey(1, 2) + delim(value_type_msg(p.type_idx as nat, p.unit_idx as nat)) + samples_bytes(
        p.samples@,
        p.label_idx as nat,
    ) + locations_bytes(p.locations@) + functions_bytes(p.locations@) + strings_bytes(
        p.strings.deep_view(),
    )
}

/// Appends the varint encoding of `n`.
pub fn push_varint(out: &mut Vec<u8>, n: u64)
    ensures
        final(out)@ == old(out)@ + varint(n as nat),
    decreases n,
{
    if n < 128 {
        out.push(n as u8);
        proof {
            assert(out@ =~= old(out)@ + varint(n as nat));
        }
    } else {
        out.push((n % 128 + 128) as u8);
        push_varint(out, n / 128);
        proof {
            assert((n / 128) as nat == (n as nat) / 128);
            assert(out@ =~= old(out)@ + varint(n as nat));
        }
    }
}

/// Appends a byte string.
pub fn push_bytes(out: &mut Vec<u8>, b: &Vec<u8>)
    ensures
        final(out)@ == old(out)@ + b@,
{
    let n = b.len();
    let mut i: usize = 0;
    while i < n
        invariant
            0 <= i <= n,
            n == b.len(),
            out@ == old(out)@ + b@.take(i as int),
        decreases n - i,
    {
        out.push(b[i]);
        proof {
            assert(out@ =~= old(out)@ + b@.take(i + 1));
        }
        i = i + 1;
    }
    proof {
        assert(b@.take(n as int) =~= b@);
    }
}

/// Appends a field key and a length-delimited payload.
pub fn push_delim_field(out: &mut Vec<u8>, key: u64, payload: &Vec<u8>)
    ensures
        final(out)@ == old(out)@ + varint(key as nat) + delim(payload@),
{
    push_varint(out, key);
    push_varint(out, payload.len() as u64);
    push_bytes(out, payload);
    proof {
        assert(out@ =~= old(out)@ + varint(key as nat) + delim(payload@));
    }
}

/// The value-type message for the given string indices.
fn value_type_bytes(t: usize, u: usize) -> (m: Vec<u8>)
    ensures
        m@ == value_type_msg(t as nat, u as nat),
{
    let mut m: Vec<u8> = Vec::new();
    push_varint(&mut m, 8);
    push_varint(&mut m, t as u64);
    push_varint(&mut m, 16);
    push_varint(&mut m, u as u64);
    proof {
        assert(m@ =~= value_type_msg(t as nat, u as nat));
    }
    m
}

/// The label message for the given string indices.
fn label_bytes(key_idx: usize, str_idx: usize) -> (m: Vec<u8>)
    ensures
        m@ == label_msg(key_idx as nat, str_idx as nat),
{
    let mut m: Vec<u8> = Vec::new();
    push_varint(&mut m, 8);
    push_varint(&mut m, key_idx as u64);
    push_varint(&mut m, 16);
    push_varint(&mut m, str_idx as u64);
    proof {
        assert(m@ =~= label_msg(key_idx as nat, str_idx as nat));
    }
    m
}

/// The message of one sample row.
fn sample_bytes(s: &PbSample, label_key: usize) -> (m: Vec<u8>)
    ensures
        m@ == sample_msg(*s, label_key as nat),
{
    let mut m: Vec<u8> = Vec::new();
    let n = s.loc_ids.len();
    let mut j: usize = n;
    proof {
        assert(s.loc_ids@.skip(n as int) =~= Seq::<usize>::empty());
    }
    while j > 0
        invariant
            0 <= j <= n,
            n == s.loc_ids.len(),
            m@ == sample_ids_bytes(s.loc_ids@.skip(j as int)),
        decreases j,
    {
        j = j - 1;
        push_varint(&mut m, 8);
        push_varint(&mut m, s.loc_ids[j] as u64);
        proof {
            assert(s.loc_ids@.skip(j as int).drop_first() =~= s.loc_ids@.skip(j + 1));
            assert(s.loc_ids@.skip(j as int).first() == s.loc_ids@[j as int]);
            assert(m@ =~= sample_ids_bytes(s.loc_ids@.skip(j as int)));
        }
    }
    proof {
        assert(s.loc_ids@.skip(0) =~= s.loc_ids@);
    }
    push_varint(&mut m, 16);
    push_varint(&mut m, s.count);
    let lab = label_bytes(label_key, s.thread_idx);
    push_delim_field(&mut m, 26, &lab);
    proof {
        assert(m@ =~= sample_msg(*s, label_key as nat));
    }
    m
}

/// The message of one location entry.
fn location_bytes(id: usize) -> (m: Vec<u8>)
    ensures
        m@ == location_msg(id as nat),
{
    let mut line: Vec<u8> = Vec::new();
    push_varint(&mut line, 8);
    push_varint(&mut line, id as u64);
    proof {
        assert(line@ =~= line_msg(id as nat));
    }
    let mut m: Vec<u8> = Vec::new();
    push_varint(&mut m, 8);
    push_varint(&mut m, id as u64);
    push_delim_field(&mut m, 34, &line);
    proof {
        assert(m@ =~= location_msg(id as nat));
    }
    m
}

/// The message of one function entry.
fn function_bytes(id: usize, name_idx: usize) -> (m: Vec<u8>)
    ensures
        m@ == function_msg(id as nat, name_idx as nat),
{
    let mut m: Vec<u8> = Vec::new();
    push_varint(&mut m, 8);
    push_varint(&mut m, id as u64);
    push_varint(&mut m, 16);
    push_varint(&mut m, name_idx as u64);
    proof {
        assert(m@ =~= function_msg(id as nat, name_idx as nat));
    }
    m
}

impl Profile {
    /// Serializes the profile into the binary profile wire format. The
    /// bytes are a pure function of the profile's value.
    pub fn to_bytes(&self) -> (r: Vec<u8>)
        requires
            self.wf(),
        ensures
            r@ == profile_bytes(*self),
    {
        let mut out: Vec<u8> = Vec::new();
        let vt = value_type_bytes(self.type_idx, self.unit_idx);
        push_delim_field(&mut out, 10, &vt);
        let ghost base1: Seq<u8> = out@;
        proof {
            assert(base1 =~= pkey(1, 2) + delim(
                value_type_msg(self.type_idx as nat, self.unit_idx as nat),
            ));
        }
        let n = self.samples.len();
        let mut i: usize = 0;
        while i < n
            invariant
                0 <= i <= n,
                n == self.samples.len(),
                out@ == base1 + samples_bytes(self.samples@.take(i as int), self.label_idx as nat),
            decreases n - i,
        {
            let sm = sample_bytes(&self.samples[i], self.label_idx);
            push_delim_field(&mut out, 18, &sm);
            proof {
                assert(self.samples@.take(i + 1).drop_last() =~= self.samples@.take(i as int));
                assert(self.samples@.take(i + 1).last() == self.samples@[i as int]);
                assert(out@ =~= base1 + samples_bytes(
                    self.samples@.take(i + 1),
                    self.label_idx as nat,
                ));
            }
            i = i + 1;
        }
        proof {
            assert(self.samples@.take(n as int) =~= self.samples@);
        }
        let ghost base2: Seq<u8> = out@;
        let nl = self.locations.len();
        proof {
            assert(self.locations@.take(1).len() == 1);
            assert(base2 =~= base2 + locations_bytes(self.locations@.take(1)));
        }
        let mut l: usize = 1;
        while l < nl
            invariant
                1 <= l <= nl,
                nl == self.locations.len(),
                out@ == base2 + locations_bytes(self.locations@.take(l as int)),
            decreases nl - l,
        {
            let loc = location_bytes(l);
            push_delim_field(&mut out, 34, &loc);
            proof {
                assert(self.locations@.take(l + 1).drop_last() =~= self.locations@.take(l as int));
                assert(self.locations@.take(l + 1).len() == l + 1);
                assert(out@ =~= base2 + locations_bytes(self.locations@.take(l + 1)));
            }
            l = l + 1;
        }
        proof {
            assert(self.locations@.take(nl as int) =~= self.locations@);
            assert(out@ =~= base2 + locations_bytes(self.locations@));
        }
        let ghost base3: Seq<u8> = out@;
        proof {
            assert(base3 =~= base3 + functions_bytes(self.locations@.take(1)));
        }
        let mut f: usize = 1;
        while f < nl
            invariant
                1 <= f <= nl,
                nl == self.locations.len(),
                out@ == base3 + functions_bytes(self.locations@.take(f as int)),
            decreases nl - f,
        {
            let fb = function_bytes(f, self.locations[f].name_idx);
            push_delim_field(&mut out, 42, &fb);
            proof {
                assert(self.locations@.take(f + 1).drop_last() =~= self.locations@.take(f as int));
                assert(self.locations@.take(f + 1).last() == self.locations@[f as int]);
                assert(self.locations@.take(f + 1).len() == f + 1);
                assert(out@ =~= base3 + functions_bytes(self.locations@.take(f + 1)));
            }
            f = f + 1;
        }
        proof {
            assert(self.locations@.take(nl as int) =~= self.locations@);
            assert(out@ =~= base3 + functions_bytes(self.locations@));
        }
        let ghost base4: Seq<u8> = out@;
        let ns = self.strings.len();
        let mut k: usize = 0;
        while k < ns
            invariant
                0 <= k <= ns,
                ns == self.strings.len(),
                out@ == base4 + strings_bytes(self.strings.deep_view().take(k as int)),
            decreases ns - k,
        {
            let b = self.strings[k].as_str().as_bytes_vec();
            push_delim_field(&mut out, 50, &b);
            proof {
                let sv = self.strings.deep_view();
                assert(sv.take(k + 1).drop_last() =~= sv.take(k as int));
                assert(sv.take(k + 1).last() == sv[k as int]);
                assert(sv[k as int] == self.strings@[k as int]@);
                assert(b@ == encode_utf8(self.strings@[k as int]@));
                assert(out@ =~= base4 + strings_bytes(sv.take(k + 1)));
            }
            k = k + 1;
        }
        proof {
            assert(self.strings.deep_view().take(ns as int) =~= self.strings.deep_view());
            assert(out@ =~= profile_bytes(*self));
        }
        out
    }
}

} // verus!
