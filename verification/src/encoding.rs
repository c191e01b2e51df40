use vstd::prelude::*;
use vstd::utf8::encode_utf8;
use crate::digest::hex_digit;

verus! {

/// The decimal digits of `n`, most significant first, as ASCII bytes.
pub open spec fn dec_bytes(n: nat) -> Seq<u8>
    decreases n,
{
    if n < 10 {
        seq![(0x30 + n) as u8]
    } else {
        dec_bytes(n / 10) + seq![(0x30 + n % 10) as u8]
    }
}

/// How one byte of a quoted text is written: quote and backslash escaped,
/// the usual short escapes for the named control bytes, other control bytes
/// in `\u00..` form, and every remaining byte as itself.
pub open spec fn escape_byte(b: u8) -> Seq<u8> {
    if b == 0x22 {
        seq![0x5cu8, 0x22u8]
    } else if b == 0x5c {
        seq![0x5cu8, 0x5cu8]
    } else if b == 0x08 {
        seq![0x5cu8, 0x62u8]
    } else if b == 0x09 {
        seq![0x5cu8, 0x74u8]
    } else if b == 0x0a {
        seq![0x5cu8, 0x6eu8]
    } else if b == 0x0c {
        seq![0x5cu8, 0x66u8]
    } else if b == 0x0d {
        seq![0x5cu8, 0x72u8]
    } else if b < 0x20 {
        seq![0x5cu8, 0x75u8, 0x30u8, 0x30u8, hex_digit(b / 16), hex_digit(b % 16)]
    } else {
        seq![b]
    }
}

/// A byte sequence written inside a quoted text, escaped bytewise.
pub open spec fn escape_bytes(s: Seq<u8>) -> Seq<u8>
    decreases s.len(),
{
    if s.len() == 0 {
        Seq::empty()
    } else {
        escape_bytes(s.drop_last()) + escape_byte(s.last())
    }
}

/// The canonical text encoding of an entry's hashed fields: one JSON object
/// with the fields in declaration order, integers in plain decimal, the
/// linked hash as a quoted text, and the entry's own hash written as empty.
pub open spec fn hash_preimage(
    index: u64,
    timestamp: u64,
    proof_of_work: u64,
    previous_hash: Seq<char>,
) -> Seq<u8> {
    encode_utf8("{\"index\":"@) + dec_bytes(index as nat) + encode_utf8(",\"timestamp\":"@)
        + dec_bytes(timestamp as nat) + encode_utf8(",\"proof_of_work\":"@) + dec_bytes(
        proof_of_work as nat,
    ) + encode_utf8(",\"previous_hash\":\""@) + escape_bytes(encode_utf8(previous_hash))
        + encode_utf8("\",\"hash\":\"\"}"@)
}

/// Appends all of `bs` to `out`.
fn push_bytes(out: &mut Vec<u8>, bs: &[u8])
    ensures
        final(out)@ == old(out)@ + bs@,
{
    let mut i: usize = 0;
    while i < bs.len()
        invariant
            i <= bs@.len(),
            out@ == old(out)@ + bs@.take(i as int),
        decreases bs@.len() - i,
    {
        out.push(bs[i]);
        proof {
            assert(old(out)@ + bs@.take(i + 1) =~= (old(out)@ + bs@.take(i as int)).push(
                bs@[i as int],
            ));
        }
        i = i + 1;
    }
    proof {
        assert(bs@.take(bs@.len() as int) =~= bs@);
    }
}

/// Appends the decimal digits of `n` to `out`.
fn push_dec(out: &mut Vec<u8>, n: u64)
    ensures
        final(out)@ == old(out)@ + dec_bytes(n as nat),
    decreases n,
{
    if n < 10 {
        out.push(0x30 + (n as u8));
        proof {
            assert(old(out)@ + dec_bytes(n as nat) =~= old(out)@.push((0x30 + n as nat) as u8));
        }
    } else {
        push_dec(out, n / 10);
        out.push(0x30 + ((n % 10) as u8));
        proof {
            assert(old(out)@ + dec_bytes(n as nat) =~= (old(out)@ + dec_bytes((n / 10) as nat)).push(
                (0x30 + n as nat % 10) as u8,
            ));
        }
    }
}

/// Appends `bs` to `out` in escaped form.
fn push_escaped(out: &mut Vec<u8>, bs: &[u8])
    ensures
        final(out)@ == old(out)@ + escape_bytes(bs@),
{
    let mut i: usize = 0;
    while i < bs.len()
        invariant
            i <= bs@.len(),
            out@ == old(out)@ + escape_bytes(bs@.take(i as int)),
        decreases bs@.len() - i,
    {
        let b = bs[i];
        if b == 0x22 {
            out.push(0x5c);
            out.push(0x22);
        } else if b == 0x5c {
            out.push(0x5c);
            out.push(0x5c);
        } else if b == 0x08 {
            out.push(0x5c);
            out.push(0x62);
        } else if b == 0x09 {
            out.push(0x5c);
            out.push(0x74);
        } else if b == 0x0a {
            out.push(0x5c);
            out.push(0x6e);
        } else if b == 0x0c {
            out.push(0x5c);
            out.push(0x66);
        } else if b == 0x0d {
            out.push(0x5c);
            out.push(0x72);
        } else if b < 0x20 {
            out.push(0x5c);
            out.push(0x75);
            out.push(0x30);
            out.push(0x30);
            out.push(crate::digest::hex_digit_of(b / 16));
            out.push(crate::digest::hex_digit_of(b % 16));
        } else {
            out.push(b);
        }
        proof {
            let t = bs@.take(i + 1);
            assert(t.drop_last() =~= bs@.take(i as int));
            assert(t.last() == bs@[i as int]);
            assert(out@ =~= old(out)@ + escape_bytes(bs@.take(i + 1)));
        }
        i = i + 1;
    }
    proof {
        assert(bs@.take(bs@.len() as int) =~= bs@);
    }
}

/// Builds the canonical encoding over which an entry's content hash is
/// computed.
pub(crate) fn hash_input(
    index: u64,
    timestamp: u64,
    proof_of_work: u64,
    previous_hash: &str,
) -> (r: Vec<u8>)
    ensures
        r@ == hash_preimage(index, timestamp, proof_of_work, previous_hash@),
{
    let mut out: Vec<u8> = Vec::new();
    push_bytes(&mut out, "{\"index\":".as_bytes());
    push_dec(&mut out, index);
    push_bytes(&mut out, ",\"timestamp\":".as_bytes());
    push_dec(&mut out, timestamp);
    push_bytes(&mut out, ",\"proof_of_work\":".as_bytes());
    push_dec(&mut out, proof_of_work);
    push_bytes(&mut out, ",\"previous_hash\":\"".as_bytes());
    push_escaped(&mut out, previous_hash.as_bytes());
    push_bytes(&mut out, "\",\"hash\":\"\"}".as_bytes());
    proof {
        assert(out@ =~= hash_preimage(index, timestamp, proof_of_work, previous_hash@));
    }
    out
}

} // verus!
