use vstd::prelude::*;

verus! {

/// One more than the largest value a parsed variable-width integer may take.
pub const VARINT_LIMIT: u128 = 0x1_0000_0000_0000_0000;

/// Parses a base-128 variable-width integer from the front of a byte string:
/// each byte contributes seven low bits, least significant group first, and a
/// set high bit marks a continuation. Yields the value and the number of
/// bytes consumed, or nothing when the string ends inside the integer.
pub open spec fn take_varint(s: Seq<u8>) -> Option<(nat, nat)>
    decreases s.len(),
{
    if s.len() == 0 {
        None
    } else {
        let b = s[0];
        if b < 128 {
            Some((b as nat, 1nat))
        } else {
            match take_varint(s.skip(1)) {
                Some(p) => Some((((b - 128) as nat + 128 * p.0) as nat, (p.1 + 1) as nat)),
                None => None,
            }
        }
    }
}

/// As `take_varint`, but rejects values that do not fit in 64 bits.
pub open spec fn take_varint64(s: Seq<u8>) -> Option<(nat, nat)> {
    match take_varint(s) {
        Some(p) => if p.0 < VARINT_LIMIT {
            Some(p)
        } else {
            None
        },
        None => None,
    }
}

/// The canonical base-128 encoding of an unsigned integer.
pub open spec fn varint_enc(n: nat) -> Seq<u8>
    decreases n,
{
    if n < 128 {
        seq![n as u8]
    } else {
        seq![(128 + n % 128) as u8] + varint_enc(n / 128)
    }
}

pub proof fn lemma_take_varint_len(s: Seq<u8>)
    ensures
        take_varint(s) matches Some(p) ==> 1 <= p.1 <= s.len(),
    decreases s.len(),
{
    if s.len() > 0 && s[0] >= 128 {
        lemma_take_varint_len(s.skip(1));
    }
}

/// Parsing after encoding recovers the value and consumes exactly the
/// encoding.
pub proof fn lemma_varint_round_trip(n: nat, rest: Seq<u8>)
    ensures
        take_varint(varint_enc(n) + rest) == Some((n, varint_enc(n).len())),
    decreases n,
{
    let s = varint_enc(n) + rest;
    if n < 128 {
        assert(s[0] == n as u8);
        assert(take_varint(s) == Some((n, 1nat)));
    } else {
        let b: u8 = (128 + n % 128) as u8;
        assert(s[0] == b);
        assert(b >= 128);
        lemma_varint_round_trip(n / 128, rest);
        assert(s.skip(1) =~= varint_enc(n / 128) + rest);
        assert((b - 128) as nat + 128 * (n / 128) == n) by {
            assert(n % 128 + 128 * (n / 128) == n) by (nonlinear_arith);
        }
    }
}

/// Parses a base-128 integer at `pos`, exactly as `take_varint64` reads the
/// remainder of the byte string.
pub fn parse_varint(s: &Vec<u8>, pos: usize) -> (r: Option<(u64, usize)>)
    requires
        pos <= s@.len(),
    ensures
        match take_varint64(s@.skip(pos as int)) {
            Some(p) => r == Some((p.0 as u64, p.1 as usize)),
            None => r is None,
        },
        r matches Some(p) ==> 1 <= p.1 <= s@.len() - pos,
    decreases s@.len() - pos,
{
    proof {
        lemma_take_varint_len(s@.skip(pos as int));
    }
    if pos == s.len() {
        return None;
    }
    let b = s[pos];
    proof {
        assert(s@.skip(pos as int)[0] == s@[pos as int]);
    }
    if b < 128 {
        Some((b as u64, 1))
    } else {
        proof {
            assert(s@.skip(pos as int).skip(1) =~= s@.skip(pos as int + 1));
        }
        match parse_varint(s, pos + 1) {
            None => None,
            Some((v, n)) => {
                let low = (b - 128) as u64;
                if v <= (u64::MAX - low) / 128 {
                    proof {
                        assert(128 * v <= u64::MAX - low) by (nonlinear_arith)
                            requires
                                v <= (u64::MAX - low) / 128,
                                low <= 127,
                        ;
                    }
                    Some((low + 128 * v, n + 1))
                } else {
                    proof {
                        assert(128 * v > u64::MAX - low) by (nonlinear_arith)
                            requires
                                v > (u64::MAX - low) / 128,
                                low <= 127,
                        ;
                    }
                    None
                }
            },
        }
    }
}

/// Appends the canonical base-128 encoding of `n` to `out`.
pub fn encode_varint_into(out: &mut Vec<u8>, n: u64)
    ensures
        final(out)@ == old(out)@ + varint_enc(n as nat),
    decreases n,
{
    if n < 128 {
        out.push(n as u8);
        proof {
            assert(final(out)@ =~= old(out)@ + varint_enc(n as nat));
        }
    } else {
        out.push((128 + n % 128) as u8);
        encode_varint_into(out, n / 128);
        proof {
            assert(final(out)@ =~= old(out)@ + varint_enc(n as nat));
        }
    }
}

/// Payloads, in order, of the length-delimited occurrences of field number
/// `field` in a wire-format message; nothing when the message is malformed.
/// Fields of other numbers, and fixed-width or integer fields, are skipped.
pub open spec fn wire_fields(s: Seq<u8>, field: nat) -> Option<Seq<Seq<u8>>>
    decreases s.len(),
    via wire_fields_decreases
{
    if s.len() == 0 {
        Some(seq![])
    } else {
        match take_varint64(s) {
            None => None,
            Some(key) => {
                let num = key.0 / 8;
                let wt = key.0 % 8;
                let kn = key.1;
                if num == 0 {
                    None
                } else if wt == 0 {
                    match take_varint64(s.skip(kn as int)) {
                        None => None,
                        Some(v) => wire_fields(s.skip((kn + v.1) as int), field),
                    }
                } else if wt == 1 {
                    if s.len() >= kn + 8 {
                        wire_fields(s.skip((kn + 8) as int), field)
                    } else {
                        None
                    }
                } else if wt == 2 {
                    match take_varint64(s.skip(kn as int)) {
                        None => None,
                        Some(l) => {
                            if s.len() >= kn + l.1 + l.0 {
                                let payload = s.subrange(
                                    (kn + l.1) as int,
                                    (kn + l.1 + l.0) as int,
                                );
                                match wire_fields(s.skip((kn + l.1 + l.0) as int), field) {
                                    None => None,
                                    Some(rest) => Some(
                                        if num == field {
                                            seq![payload] + rest
                                        } else {
                                            rest
                                        },
                                    ),
                                }
                            } else {
                                None
                            }
                        },
                    }
                } else if wt == 5 {
                    if s.len() >= kn + 4 {
                        wire_fields(s.skip((kn + 4) as int), field)
                    } else {
                        None
                    }
                } else {
                    None
                }
            },
        }
    }
}

#[via_fn]
proof fn wire_fields_decreases(s: Seq<u8>, field: nat) {
    lemma_take_varint_len(s);
    if s.len() > 0 {
        match take_varint64(s) {
            Some(key) => {
                lemma_take_varint_len(s.skip(key.1 as int));
            },
            None => {},
        }
    }
}

/// Every extracted payload is strictly shorter than the whole message.
pub proof fn lemma_wire_fields_payload_len(s: Seq<u8>, field: nat)
    ensures
        wire_fields(s, field) matches Some(ps) ==> forall|i: int|
            0 <= i < ps.len() ==> #[trigger] ps[i].len() < s.len(),
    decreases s.len(),
{
    lemma_take_varint_len(s);
    if s.len() > 0 {
        match take_varint64(s) {
            None => {},
            Some(key) => {
                let num = key.0 / 8;
                let wt = key.0 % 8;
                let kn = key.1;
                lemma_take_varint_len(s.skip(kn as int));
                if num == 0 {
                } else if wt == 0 {
                    match take_varint64(s.skip(kn as int)) {
                        None => {},
                        Some(v) => {
                            lemma_wire_fields_payload_len(s.skip((kn + v.1) as int), field);
                        },
                    }
                } else if wt == 1 {
                    if s.len() >= kn + 8 {
                        lemma_wire_fields_payload_len(s.skip((kn + 8) as int), field);
                    }
                } else if wt == 2 {
                    match take_varint64(s.skip(kn as int)) {
                        None => {},
                        Some(l) => {
                            if s.len() >= kn + l.1 + l.0 {
                                lemma_wire_fields_payload_len(
                                    s.skip((kn + l.1 + l.0) as int),
                                    field,
                                );
                            }
                        },
                    }
                } else if wt == 5 {
                    if s.len() >= kn + 4 {
                        lemma_wire_fields_payload_len(s.skip((kn + 4) as int), field);
                    }
                }
            },
        }
    }
}

/// Collects the length-delimited payloads of field number `field`, exactly
/// as `wire_fields` reads the byte string.
#[verifier::rlimit(100)]
pub fn wire_len_fields(s: &Vec<u8>, field: u64) -> (r: Option<Vec<Vec<u8>>>)
    ensures
        match wire_fields(s@, field as nat) {
            None => r is None,
            Some(ps) => r matches Some(v) && v.deep_view() == ps,
        },
{
    let mut pos: usize = 0;
    let mut acc: Vec<Vec<u8>> = Vec::new();
    proof {
        assert(s@.skip(0) =~= s@);
        assert(acc.deep_view() =~~= Seq::<Seq<u8>>::empty());
        if wire_fields(s@, field as nat) is Some {
            let rest0 = wire_fields(s@, field as nat)->Some_0;
            assert(Seq::<Seq<u8>>::empty() + rest0 =~= rest0);
        }
    }
    loop
        invariant
            pos <= s@.len(),
            ({
                let full = wire_fields(s@, field as nat);
                match wire_fields(s@.skip(pos as int), field as nat) {
                    None => full is None,
                    Some(rest) => full == Some(acc.deep_view() + rest),
                }
            }),
        decreases s@.len() - pos,
    {
        if pos == s.len() {
            proof {
                assert(s@.skip(pos as int) =~= Seq::<u8>::empty());
                assert(acc.deep_view() + Seq::<Seq<u8>>::empty() =~= acc.deep_view());
            }
            return Some(acc);
        }
        let ghost tail = s@.skip(pos as int);
        proof {
            lemma_take_varint_len(tail);
        }
        match parse_varint(s, pos) {
            None => {
                return None;
            },
            Some((key, kn)) => {
                let num = key / 8;
                let wt = key % 8;
                if num == 0 {
                    return None;
                }
                if wt == 0 {
                    proof {
                        assert(tail.skip(kn as int) =~= s@.skip(pos as int + kn as int));
                        lemma_take_varint_len(tail.skip(kn as int));
                    }
                    match parse_varint(s, pos + kn) {
                        None => {
                            return None;
                        },
                        Some((_v, vn)) => {
                            proof {
                                assert(tail.skip((kn + vn) as int) =~= s@.skip(
                                    (pos + kn + vn) as int,
                                ));
                            }
                            pos = pos + kn + vn;
                        },
                    }
                } else if wt == 1 {
                    if s.len() - (pos + kn) >= 8 {
                        proof {
                            assert(tail.skip((kn + 8) as int) =~= s@.skip((pos + kn + 8) as int));
                        }
                        pos = pos + kn + 8;
                    } else {
                        return None;
                    }
                } else if wt == 2 {
                    proof {
                        assert(tail.skip(kn as int) =~= s@.skip(pos as int + kn as int));
                        lemma_take_varint_len(tail.skip(kn as int));
                    }
                    match parse_varint(s, pos + kn) {
                        None => {
                            return None;
                        },
                        Some((l, ln)) => {
                            let avail = s.len() - (pos + kn + ln);
                            if l <= avail as u64 {
                                let start = pos + kn + ln;
                                let end = start + l as usize;
                                let payload = crate::types::copy_range(s, start, end);
                                proof {
                                    assert(payload@ =~= tail.subrange(
                                        (kn + ln) as int,
                                        (kn + ln + l) as int,
                                    ));
                                    assert(tail.skip((kn + ln + l) as int) =~= s@.skip(
                                        end as int,
                                    ));
                                }
                                if num == field {
                                    let ghost old_acc = acc.deep_view();
                                    acc.push(payload);
                                    proof {
                                        assert(acc.deep_view() =~~= old_acc + seq![payload@]);
                                        if wire_fields(s@.skip(end as int), field as nat) is Some {
                                            let rest2 = wire_fields(
                                                s@.skip(end as int),
                                                field as nat,
                                            )->Some_0;
                                            assert(old_acc + (seq![payload@] + rest2) =~= (old_acc
                                                + seq![payload@]) + rest2);
                                        }
                                    }
                                } else {
                                }
                                pos = end;
                            } else {
                                return None;
                            }
                        },
                    }
                } else if wt == 5 {
                    if s.len() - (pos + kn) >= 4 {
                        proof {
                            assert(tail.skip((kn + 4) as int) =~= s@.skip((pos + kn + 4) as int));
                        }
                        pos = pos + kn + 4;
                    } else {
                        return None;
                    }
                } else {
                    return None;
                }
            },
        }
    }
}

/// The wire encoding of a message holding a single bytes field numbered
/// one, as a canonical encoder emits it: an empty payload encodes to an
/// empty message.
pub open spec fn pubkey_enc(key: Seq<u8>) -> Seq<u8> {
    if key.len() == 0 {
        seq![]
    } else {
        seq![10u8] + varint_enc(key.len()) + key
    }
}

/// The bytes field read back from such a message: the last occurrence wins
/// and a missing field reads as empty.
pub open spec fn pubkey_dec(s: Seq<u8>) -> Option<Seq<u8>> {
    match wire_fields(s, 1) {
        None => None,
        Some(ps) => if ps.len() == 0 {
            Some(seq![])
        } else {
            Some(ps.last())
        },
    }
}

/// Encodes a single-bytes-field message.
pub fn encode_pubkey(key: &Vec<u8>) -> (r: Vec<u8>)
    ensures
        r@ == pubkey_enc(key@),
{
    let mut out: Vec<u8> = Vec::new();
    if key.len() == 0 {
        return out;
    }
    out.push(10u8);
    encode_varint_into(&mut out, key.len() as u64);
    let mut i: usize = 0;
    while i < key.len()
        invariant
            i <= key@.len(),
            out@ == seq![10u8] + varint_enc(key@.len()) + key@.subrange(0, i as int),
        decreases key@.len() - i,
    {
        out.push(key[i]);
        i = i + 1;
        proof {
            assert(out@ =~= seq![10u8] + varint_enc(key@.len()) + key@.subrange(0, i as int));
        }
    }
    proof {
        assert(key@.subrange(0, key@.len() as int) =~= key@);
        assert(out@ =~= pubkey_enc(key@));
    }
    out
}

/// Decodes a single-bytes-field message.
pub fn decode_pubkey(s: &Vec<u8>) -> (r: Option<Vec<u8>>)
    ensures
        match pubkey_dec(s@) {
            None => r is None,
            Some(k) => r matches Some(v) && v@ == k,
        },
{
    match wire_len_fields(s, 1) {
        None => None,
        Some(mut ps) => {
            if ps.len() == 0 {
                proof {
                    assert(ps.deep_view().len() == 0);
                }
                Some(Vec::new())
            } else {
                let ghost ps0 = ps.deep_view();
                proof {
                    assert(ps0.len() == ps@.len());
                }
                let last = ps.pop().unwrap();
                proof {
                    assert(last@ =~~= ps0.last());
                }
                Some(last)
            }
        },
    }
}

/// Decoding after encoding recovers the payload.
pub proof fn lemma_pubkey_round_trip(key: Seq<u8>)
    requires
        key.len() < VARINT_LIMIT,
    ensures
        pubkey_dec(pubkey_enc(key)) == Some(key),
{
    if key.len() == 0 {
        assert(pubkey_enc(key) =~= Seq::<u8>::empty());
        assert(wire_fields(Seq::<u8>::empty(), 1) == Some(Seq::<Seq<u8>>::empty()));
        assert(key =~= Seq::<u8>::empty());
    } else {
        let s = pubkey_enc(key);
        let el = varint_enc(key.len());
        assert(s == seq![10u8] + el + key);
        assert(s.len() >= 1);
        assert(s[0] == 10u8);
        assert(take_varint(s) == Some((10nat, 1nat)));
        assert(take_varint64(s) == Some((10nat, 1nat)));
        lemma_varint_round_trip(key.len(), key);
        assert(s.skip(1) =~= el + key);
        assert(take_varint64(s.skip(1)) == Some((key.len(), el.len())));
        assert(el.len() >= 1);
        assert(s.len() == 1 + el.len() + key.len());
        let payload = s.subrange((1 + el.len()) as int, (1 + el.len() + key.len()) as int);
        assert(payload =~= key);
        assert(s.skip((1 + el.len() + key.len()) as int) =~= Seq::<u8>::empty());
        assert(wire_fields(s, 1) == Some(seq![payload]));
    }
}

} // verus!
