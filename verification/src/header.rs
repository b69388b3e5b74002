use vstd::prelude::*;
use vstd::arithmetic::div_mod::lemma_div_multiples_vanish_fancy;
use vstd::arithmetic::div_mod::lemma_fundamental_div_mod;
use vstd::arithmetic::div_mod::lemma_mod_multiples_vanish;
use vstd::arithmetic::div_mod::lemma_small_mod;
use crate::endpoint::Endpoint;

verus! {

/// The 12-byte constant signature that opens every header.
pub open spec fn spec_signature() -> Seq<u8> {
    seq![0x0du8, 0x0au8, 0x0du8, 0x0au8, 0x00u8, 0x0du8, 0x0au8, 0x51u8, 0x55u8, 0x49u8, 0x54u8, 0x0au8]
}

/// Big-endian encoding of a 16-bit value as two bytes.
pub open spec fn spec_be16(x: u16) -> Seq<u8> {
    seq![(x / 256) as u8, (x % 256) as u8]
}

/// The 16-bit value read back from two big-endian bytes.
pub open spec fn spec_be16_val(hi: u8, lo: u8) -> u16 {
    (hi * 256 + lo) as u16
}

/// The complete header for a source/destination endpoint pair: the fixed
/// signature, the version/command byte `0x21`, a family/transport byte,
/// a big-endian payload length, and, when the two families agree, the raw
/// source and destination addresses followed by the two ports. A pair of
/// mismatched families degrades to the zero-length "unspecified" form.
pub open spec fn spec_header(src: Endpoint, dst: Endpoint) -> Seq<u8> {
    spec_signature() + seq![0x21u8] + match (src, dst) {
        (Endpoint::V4 { ip: si, port: sp }, Endpoint::V4 { ip: di, port: dp }) =>
            seq![0x11u8] + spec_be16(12) + si@ + di@ + spec_be16(sp) + spec_be16(dp),
        (Endpoint::V6 { ip: si, port: sp }, Endpoint::V6 { ip: di, port: dp }) =>
            seq![0x21u8] + spec_be16(36) + si@ + di@ + spec_be16(sp) + spec_be16(dp),
        _ => seq![0x00u8] + spec_be16(0),
    }
}

fn push_signature(out: &mut Vec<u8>)
    ensures
        final(out)@ == old(out)@ + spec_signature(),
{
    out.push(0x0d);
    out.push(0x0a);
    out.push(0x0d);
    out.push(0x0a);
    out.push(0x00);
    out.push(0x0d);
    out.push(0x0a);
    out.push(0x51);
    out.push(0x55);
    out.push(0x49);
    out.push(0x54);
    out.push(0x0a);
    proof {
        assert(out@ =~= old(out)@ + spec_signature());
    }
}

fn push_be16(out: &mut Vec<u8>, x: u16)
    ensures
        final(out)@ == old(out)@ + spec_be16(x),
{
    out.push((x / 256) as u8);
    out.push((x % 256) as u8);
    proof {
        assert(out@ =~= old(out)@ + spec_be16(x));
    }
}

fn push_ip4(out: &mut Vec<u8>, ip: &[u8; 4])
    ensures
        final(out)@ == old(out)@ + ip@,
{
    out.push(ip[0]);
    out.push(ip[1]);
    out.push(ip[2]);
    out.push(ip[3]);
    proof {
        assert(out@ =~= old(out)@ + ip@);
    }
}

fn push_ip16(out: &mut Vec<u8>, ip: &[u8; 16])
    ensures
        final(out)@ == old(out)@ + ip@,
{
    let mut i: usize = 0;
    while i < 16
        invariant
            i <= 16,
            out@ == old(out)@ + ip@.subrange(0, i as int),
        decreases 16 - i,
    {
        out.push(ip[i]);
        proof {
            assert(out@ =~= old(out)@ + ip@.subrange(0, i as int + 1));
        }
        i = i + 1;
    }
    proof {
        assert(ip@.subrange(0, 16) =~= ip@);
    }
}

/// Shape of a header for two IPv4 endpoints: 28 bytes carrying the
/// signature, the four fixed bytes, both raw addresses and both ports.
pub proof fn lemma_header_v4(si: [u8; 4], sp: u16, di: [u8; 4], dp: u16)
    ensures
        ({
            let h = spec_header(
                Endpoint::V4 { ip: si, port: sp },
                Endpoint::V4 { ip: di, port: dp },
            );
            &&& h.len() == 28
            &&& h.subrange(0, 12) == spec_signature()
            &&& h[12] == 0x21u8
            &&& h[13] == 0x11u8
            &&& h[14] == 0x00u8
            &&& h[15] == 0x0cu8
            &&& h.subrange(16, 20) == si@
            &&& h.subrange(20, 24) == di@
            &&& h[24] == (sp / 256) as u8
            &&& h[25] == (sp % 256) as u8
            &&& h[26] == (dp / 256) as u8
            &&& h[27] == (dp % 256) as u8
        }),
{
    let h = spec_header(Endpoint::V4 { ip: si, port: sp }, Endpoint::V4 { ip: di, port: dp });
    assert(h.subrange(0, 12) =~= spec_signature());
    assert(h.subrange(16, 20) =~= si@);
    assert(h.subrange(20, 24) =~= di@);
}

/// Shape of a header for two IPv6 endpoints: 52 bytes carrying the
/// signature, the four fixed bytes, both raw addresses and both ports.
pub proof fn lemma_header_v6(si: [u8; 16], sp: u16, di: [u8; 16], dp: u16)
    ensures
        ({
            let h = spec_header(
                Endpoint::V6 { ip: si, port: sp },
                Endpoint::V6 { ip: di, port: dp },
            );
            &&& h.len() == 52
            &&& h.subrange(0, 12) == spec_signature()
            &&& h[12] == 0x21u8
            &&& h[13] == 0x21u8
            &&& h[14] == 0x00u8
            &&& h[15] == 0x24u8
            &&& h.subrange(16, 32) == si@
            &&& h.subrange(32, 48) == di@
            &&& h[48] == (sp / 256) as u8
            &&& h[49] == (sp % 256) as u8
            &&& h[50] == (dp / 256) as u8
            &&& h[51] == (dp % 256) as u8
        }),
{
    let h = spec_header(Endpoint::V6 { ip: si, port: sp }, Endpoint::V6 { ip: di, port: dp });
    assert(h.subrange(0, 12) =~= spec_signature());
    assert(h.subrange(16, 32) =~= si@);
    assert(h.subrange(32, 48) =~= di@);
}

/// Shape of a header for endpoints of different families: 16 bytes with
/// the "unspecified" family byte and a zero length, no payload at all.
pub proof fn lemma_header_mixed(src: Endpoint, dst: Endpoint)
    requires
        !src.same_family(dst),
    ensures
        ({
            let h = spec_header(src, dst);
            &&& h.len() == 16
            &&& h.subrange(0, 12) == spec_signature()
            &&& h[12] == 0x21u8
            &&& h[13] == 0x00u8
            &&& h[14] == 0x00u8
            &&& h[15] == 0x00u8
        }),
{
    let h = spec_header(src, dst);
    assert(h.subrange(0, 12) =~= spec_signature());
}

/// Reads a 16-bit value back out of its two big-endian bytes, undoing
/// `spec_be16` exactly.
fn be16_val(hi: u8, lo: u8) -> (r: u16)
    ensures
        r == spec_be16_val(hi, lo),
        (r / 256) as u8 == hi,
        (r % 256) as u8 == lo,
{
    let r: u16 = (hi as u16) * 256 + (lo as u16);
    proof {
        lemma_div_multiples_vanish_fancy(hi as int, lo as int, 256);
        lemma_mod_multiples_vanish(hi as int, lo as int, 256);
        lemma_small_mod(lo as nat, 256);
        assert(256 * (hi as int) + (lo as int) == r as int);
    }
    r
}

/// Two 16-bit values whose big-endian bytes agree are the same value.
proof fn lemma_be16_inject(x: u16, y: u16)
    requires
        (x / 256) as u8 == (y / 256) as u8,
        (x % 256) as u8 == (y % 256) as u8,
    ensures
        x == y,
{
    lemma_fundamental_div_mod(x as int, 256);
    lemma_fundamental_div_mod(y as int, 256);
}

/// Builds the byte header identifying the original client (`src`) and the
/// chosen destination (`dst`), exactly as `spec_header` lays it out.
pub fn encode_header(src: &Endpoint, dst: &Endpoint) -> (r: Vec<u8>)
    ensures
        r@ == spec_header(*src, *dst),
{
    let mut out: Vec<u8> = Vec::new();
    push_signature(&mut out);
    out.push(0x21);
    match (src, dst) {
        (Endpoint::V4 { ip: si, port: sp }, Endpoint::V4 { ip: di, port: dp }) => {
            out.push(0x11);
            push_be16(&mut out, 12);
            push_ip4(&mut out, si);
            push_ip4(&mut out, di);
            push_be16(&mut out, *sp);
            push_be16(&mut out, *dp);
        }
        (Endpoint::V6 { ip: si, port: sp }, Endpoint::V6 { ip: di, port: dp }) => {
            out.push(0x21);
            push_be16(&mut out, 36);
            push_ip16(&mut out, si);
            push_ip16(&mut out, di);
            push_be16(&mut out, *sp);
            push_be16(&mut out, *dp);
        }
        _ => {
            out.push(0x00);
            push_be16(&mut out, 0);
        }
    }
    proof {
        assert(out@ =~= spec_header(*src, *dst));
    }
    out
}

/// Every header of a same-family pair opens with the signature and
/// `0x21`, and its family byte dictates the one length and length field
/// its case allows.
pub proof fn lemma_header_cases(s: Endpoint, d: Endpoint)
    requires
        s.same_family(d),
    ensures
        ({
            let h = spec_header(s, d);
            &&& h.len() >= 16
            &&& h.subrange(0, 12) == spec_signature()
            &&& h[12] == 0x21u8
            &&& (h[13] == 0x11u8 || h[13] == 0x21u8)
            &&& (h[13] == 0x11u8 ==> h.len() == 28 && h[14] == 0x00u8 && h[15] == 0x0cu8)
            &&& (h[13] == 0x21u8 ==> h.len() == 52 && h[14] == 0x00u8 && h[15] == 0x24u8)
        }),
{
    match (s, d) {
        (Endpoint::V4 { ip: si, port: sp }, Endpoint::V4 { ip: di, port: dp }) => {
            lemma_header_v4(si, sp, di, dp);
        }
        (Endpoint::V6 { ip: si, port: sp }, Endpoint::V6 { ip: di, port: dp }) => {
            lemma_header_v6(si, sp, di, dp);
        }
        _ => {}
    }
}

/// A 28-byte string with the right fixed bytes whose payload spells out
/// two IPv4 endpoints is exactly the header of those endpoints.
proof fn lemma_decode_v4(bytes: Seq<u8>, sip: [u8; 4], dip: [u8; 4], sp: u16, dp: u16)
    requires
        bytes.len() == 28,
        bytes.subrange(0, 12) == spec_signature(),
        bytes[12] == 0x21u8,
        bytes[13] == 0x11u8,
        bytes[14] == 0x00u8,
        bytes[15] == 0x0cu8,
        sip@ == bytes.subrange(16, 20),
        dip@ == bytes.subrange(20, 24),
        (sp / 256) as u8 == bytes[24],
        (sp % 256) as u8 == bytes[25],
        (dp / 256) as u8 == bytes[26],
        (dp % 256) as u8 == bytes[27],
    ensures
        bytes == spec_header(Endpoint::V4 { ip: sip, port: sp }, Endpoint::V4 { ip: dip, port: dp }),
{
    lemma_header_v4(sip, sp, dip, dp);
    let h = spec_header(Endpoint::V4 { ip: sip, port: sp }, Endpoint::V4 { ip: dip, port: dp });
    assert forall|i: int| 0 <= i < 28 implies bytes[i] == h[i] by {
        if i < 12 {
            assert(bytes.subrange(0, 12)[i] == bytes[i]);
            assert(h.subrange(0, 12)[i] == h[i]);
        } else if 16 <= i < 20 {
            assert(bytes.subrange(16, 20)[i - 16] == bytes[i]);
            assert(h.subrange(16, 20)[i - 16] == h[i]);
        } else if 20 <= i < 24 {
            assert(bytes.subrange(20, 24)[i - 20] == bytes[i]);
            assert(h.subrange(20, 24)[i - 20] == h[i]);
        }
    }
    assert(bytes =~= h);
}

/// A 52-byte string with the right fixed bytes whose payload spells out
/// two IPv6 endpoints is exactly the header of those endpoints.
#[verifier::rlimit(60)]
proof fn lemma_decode_v6(bytes: Seq<u8>, sip: [u8; 16], dip: [u8; 16], sp: u16, dp: u16)
    requires
        bytes.len() == 52,
        bytes.subrange(0, 12) == spec_signature(),
        bytes[12] == 0x21u8,
        bytes[13] == 0x21u8,
        bytes[14] == 0x00u8,
        bytes[15] == 0x24u8,
        sip@ == bytes.subrange(16, 32),
        dip@ == bytes.subrange(32, 48),
        (sp / 256) as u8 == bytes[48],
        (sp % 256) as u8 == bytes[49],
        (dp / 256) as u8 == bytes[50],
        (dp % 256) as u8 == bytes[51],
    ensures
        bytes == spec_header(Endpoint::V6 { ip: sip, port: sp }, Endpoint::V6 { ip: dip, port: dp }),
{
    lemma_header_v6(sip, sp, dip, dp);
    let h = spec_header(Endpoint::V6 { ip: sip, port: sp }, Endpoint::V6 { ip: dip, port: dp });
    assert forall|i: int| 0 <= i < 52 implies bytes[i] == h[i] by {
        if i < 12 {
            assert(bytes.subrange(0, 12)[i] == bytes[i]);
            assert(h.subrange(0, 12)[i] == h[i]);
        } else if 16 <= i < 32 {
            assert(bytes.subrange(16, 32)[i - 16] == bytes[i]);
            assert(h.subrange(16, 32)[i - 16] == h[i]);
        } else if 32 <= i < 48 {
            assert(bytes.subrange(32, 48)[i - 32] == bytes[i]);
            assert(h.subrange(32, 48)[i - 32] == h[i]);
        }
    }
    assert(bytes =~= h);
}

/// True exactly when the first 16 bytes look like a header: the 12-byte
/// signature followed by the version/command byte `0x21`.
fn prefix_ok(bytes: &[u8]) -> (r: bool)
    requires
        bytes@.len() >= 16,
    ensures
        r <==> (bytes@.subrange(0, 12) == spec_signature() && bytes@[12] == 0x21u8),
{
    let ok = bytes[0] == 0x0d && bytes[1] == 0x0a && bytes[2] == 0x0d && bytes[3] == 0x0a
        && bytes[4] == 0x00 && bytes[5] == 0x0d && bytes[6] == 0x0a && bytes[7] == 0x51
        && bytes[8] == 0x55 && bytes[9] == 0x49 && bytes[10] == 0x54 && bytes[11] == 0x0a
        && bytes[12] == 0x21;
    proof {
        let sub = bytes@.subrange(0, 12);
        if ok {
            assert(sub =~= spec_signature());
        } else {
            if sub == spec_signature() {
                assert(forall|k: int| 0 <= k < 12 ==> sub[k] == spec_signature()[k]);
                assert(bytes@[0] == sub[0] && bytes@[1] == sub[1] && bytes@[2] == sub[2]
                    && bytes@[3] == sub[3] && bytes@[4] == sub[4] && bytes@[5] == sub[5]
                    && bytes@[6] == sub[6] && bytes@[7] == sub[7] && bytes@[8] == sub[8]
                    && bytes@[9] == sub[9] && bytes@[10] == sub[10] && bytes@[11] == sub[11]);
            }
        }
    }
    ok
}

/// Reads a header back into the source and destination endpoints it
/// identifies. Succeeds exactly on the byte strings that `encode_header`
/// produces for a pair of endpoints of one family; everything else,
/// including the zero-length "unspecified" form, yields `None`.
pub fn decode_header(bytes: &[u8]) -> (r: Option<(Endpoint, Endpoint)>)
    ensures
        r matches Some(p) ==> p.0.same_family(p.1) && bytes@ == spec_header(p.0, p.1),
        r is None ==> forall|s: Endpoint, d: Endpoint|
            s.same_family(d) ==> bytes@ != spec_header(s, d),
{
    let n = bytes.len();
    if n < 16 {
        proof {
            assert forall|s: Endpoint, d: Endpoint|
                s.same_family(d) implies bytes@ != spec_header(s, d) by {
                lemma_header_cases(s, d);
            }
        }
        return None;
    }
    if !prefix_ok(bytes) {
        proof {
            assert forall|s: Endpoint, d: Endpoint|
                s.same_family(d) implies bytes@ != spec_header(s, d) by {
                lemma_header_cases(s, d);
            }
        }
        return None;
    }
    let fam = bytes[13];
    if fam == 0x11 && n == 28 && bytes[14] == 0x00 && bytes[15] == 0x0c {
        let sip: [u8; 4] = [bytes[16], bytes[17], bytes[18], bytes[19]];
        let dip: [u8; 4] = [bytes[20], bytes[21], bytes[22], bytes[23]];
        let sp = be16_val(bytes[24], bytes[25]);
        let dp = be16_val(bytes[26], bytes[27]);
        proof {
            assert(sip@ =~= bytes@.subrange(16, 20));
            assert(dip@ =~= bytes@.subrange(20, 24));
            lemma_decode_v4(bytes@, sip, dip, sp, dp);
        }
        Some((Endpoint::V4 { ip: sip, port: sp }, Endpoint::V4 { ip: dip, port: dp }))
    } else if fam == 0x21 && n == 52 && bytes[14] == 0x00 && bytes[15] == 0x24 {
        let sip: [u8; 16] = [
            bytes[16], bytes[17], bytes[18], bytes[19], bytes[20], bytes[21], bytes[22], bytes[23],
            bytes[24], bytes[25], bytes[26], bytes[27], bytes[28], bytes[29], bytes[30], bytes[31],
        ];
        let dip: [u8; 16] = [
            bytes[32], bytes[33], bytes[34], bytes[35], bytes[36], bytes[37], bytes[38], bytes[39],
            bytes[40], bytes[41], bytes[42], bytes[43], bytes[44], bytes[45], bytes[46], bytes[47],
        ];
        let sp = be16_val(bytes[48], bytes[49]);
        let dp = be16_val(bytes[50], bytes[51]);
        proof {
            assert(sip@ =~= bytes@.subrange(16, 32));
            assert(dip@ =~= bytes@.subrange(32, 48));
            lemma_decode_v6(bytes@, sip, dip, sp, dp);
        }
        Some((Endpoint::V6 { ip: sip, port: sp }, Endpoint::V6 { ip: dip, port: dp }))
    } else {
        proof {
            assert forall|s: Endpoint, d: Endpoint|
                s.same_family(d) implies bytes@ != spec_header(s, d) by {
                lemma_header_cases(s, d);
            }
        }
        None
    }
}

/// One byte string identifies one endpoint pair: two same-family pairs
/// with the same header are the same pair. Together with the exact
/// contracts of `encode_header` and `decode_header`, this says that
/// decoding a generated header recovers exactly the endpoints it was
/// generated from.
pub proof fn lemma_header_round_trip(s1: Endpoint, d1: Endpoint, s2: Endpoint, d2: Endpoint)
    requires
        s1.same_family(d1),
        s2.same_family(d2),
        spec_header(s1, d1) == spec_header(s2, d2),
    ensures
        s1 == s2,
        d1 == d2,
{
    let h = spec_header(s1, d1);
    match (s1, d1) {
        (Endpoint::V4 { ip: si1, port: sp1 }, Endpoint::V4 { ip: di1, port: dp1 }) => {
            lemma_header_v4(si1, sp1, di1, dp1);
            match (s2, d2) {
                (Endpoint::V4 { ip: si2, port: sp2 }, Endpoint::V4 { ip: di2, port: dp2 }) => {
                    lemma_header_v4(si2, sp2, di2, dp2);
                    assert(si1 =~= si2);
                    assert(di1 =~= di2);
                    lemma_be16_inject(sp1, sp2);
                    lemma_be16_inject(dp1, dp2);
                }
                (Endpoint::V6 { ip: si2, port: sp2 }, Endpoint::V6 { ip: di2, port: dp2 }) => {
                    lemma_header_v6(si2, sp2, di2, dp2);
                    assert(false);
                }
                _ => {
                    assert(false);
                }
            }
        }
        (Endpoint::V6 { ip: si1, port: sp1 }, Endpoint::V6 { ip: di1, port: dp1 }) => {
            lemma_header_v6(si1, sp1, di1, dp1);
            match (s2, d2) {
                (Endpoint::V4 { ip: si2, port: sp2 }, Endpoint::V4 { ip: di2, port: dp2 }) => {
                    lemma_header_v4(si2, sp2, di2, dp2);
                    assert(false);
                }
                (Endpoint::V6 { ip: si2, port: sp2 }, Endpoint::V6 { ip: di2, port: dp2 }) => {
                    lemma_header_v6(si2, sp2, di2, dp2);
                    assert(si1 =~= si2);
                    assert(di1 =~= di2);
                    lemma_be16_inject(sp1, sp2);
                    lemma_be16_inject(dp1, dp2);
                }
                _ => {
                    assert(false);
                }
            }
        }
        _ => {
            assert(false);
        }
    }
}

} // verus!
