//! UTF-16 in little-endian bytes, the form the registry keeps text in.
use vstd::prelude::*;

verus! {

pub assume_specification[ char::from_u32 ](i: u32) -> (c: Option<char>)
    ensures
        c == (if i <= 0xD7FF || (0xE000 <= i && i <= 0x10FFFF) {
            Some(i as char)
        } else {
            None::<char>
        }),
;

/// The UTF-16 code units of one character: itself below U+10000, else a surrogate pair.
pub open spec fn char_units(c: char) -> Seq<u16> {
    let v = c as u32 as int;
    if v < 0x10000 {
        seq![v as u16]
    } else {
        seq![(0xD800 + (v - 0x10000) / 1024) as u16, (0xDC00 + (v - 0x10000) % 1024) as u16]
    }
}

pub open spec fn utf16_encode(s: Seq<char>) -> Seq<u16>
    decreases s.len(),
{
    if s.len() == 0 {
        Seq::empty()
    } else {
        char_units(s[0]) + utf16_encode(s.drop_first())
    }
}

/// Decoding as `String::from_utf16_lossy` does: pairs of surrogates join into one
/// character, a surrogate without its partner becomes U+FFFD.
pub open spec fn utf16_decode(u: Seq<u16>) -> Seq<char>
    decreases u.len(),
{
    if u.len() == 0 {
        Seq::empty()
    } else if u[0] < 0xD800 || u[0] > 0xDFFF {
        seq![u[0] as u32 as char] + utf16_decode(u.drop_first())
    } else if u[0] <= 0xDBFF && u.len() >= 2 && 0xDC00 <= u[1] && u[1] <= 0xDFFF {
        seq![
            (0x10000 + (u[0] - 0xD800) * 1024 + (u[1] - 0xDC00)) as u32 as char,
        ] + utf16_decode(u.skip(2))
    } else {
        seq!['\u{FFFD}'] + utf16_decode(u.drop_first())
    }
}

/// The code units a run of little-endian byte pairs holds; an odd last byte is ignored.
pub open spec fn units_of_bytes(b: Seq<u8>) -> Seq<u16> {
    Seq::new(b.len() / 2, |i: int| (b[2 * i] + 256 * b[2 * i + 1]) as u16)
}

/// The little-endian bytes of `u`, two per unit.
pub open spec fn bytes_of_units(u: Seq<u16>) -> Seq<u8> {
    Seq::new(2 * u.len(), |i: int| if i % 2 == 0 { (u[i / 2] % 256) as u8 } else { (u[i / 2] / 256) as u8 })
}

/// `u` without trailing zero units.
pub open spec fn strip_zeros(u: Seq<u16>) -> Seq<u16>
    decreases u.len(),
{
    if u.len() > 0 && u.last() == 0 {
        strip_zeros(u.drop_last())
    } else {
        u
    }
}

proof fn lemma_char_units_decode(c: char, rest: Seq<u16>)
    ensures
        utf16_decode(char_units(c) + rest) == seq![c] + utf16_decode(rest),
{
    let v = c as u32 as int;
    let all = char_units(c) + rest;
    if v < 0x10000 {
        assert(all[0] == v as u16);
        assert(all.drop_first() =~= rest);
        assert((v as u16) as u32 as char == c);
    } else {
        let hi = (0xD800 + (v - 0x10000) / 1024) as u16;
        let lo = (0xDC00 + (v - 0x10000) % 1024) as u16;
        assert(all[0] == hi);
        assert(all[1] == lo);
        assert(all.skip(2) =~= rest);
        assert(0x10000 + (hi - 0xD800) * 1024 + (lo - 0xDC00) == v);
    }
}

proof fn lemma_encode_decode(s: Seq<char>)
    ensures
        utf16_decode(utf16_encode(s)) == s,
    decreases s.len(),
{
    if s.len() > 0 {
        lemma_encode_decode(s.drop_first());
        lemma_char_units_decode(s[0], utf16_encode(s.drop_first()));
        assert(seq![s[0]] + s.drop_first() =~= s);
    }
}

proof fn lemma_char_nonzero(c: char)
    requires
        c != '\0',
    ensures
        c as u32 as int != 0,
{
}

proof fn lemma_encode_last_nonzero(s: Seq<char>)
    requires
        s.len() > 0,
        s.last() != '\0',
    ensures
        utf16_encode(s).len() > 0,
        utf16_encode(s).last() != 0,
    decreases s.len(),
{
    let rest = s.drop_first();
    assert(utf16_encode(s) == char_units(s[0]) + utf16_encode(rest));
    if rest.len() > 0 {
        assert(rest.last() == s.last());
        lemma_encode_last_nonzero(rest);
    } else {
        lemma_char_nonzero(s[0]);
        assert(utf16_encode(rest) =~= Seq::<u16>::empty());
        assert(char_units(s[0]) + utf16_encode(rest) =~= char_units(s[0]));
        assert(s[0] == s.last());
    }
}

proof fn lemma_units_of_bytes_of_units(u: Seq<u16>)
    ensures
        units_of_bytes(bytes_of_units(u) + seq![0u8, 0u8]) == u.push(0),
{
    let b = bytes_of_units(u) + seq![0u8, 0u8];
    assert(b.len() == 2 * u.len() + 2);
    assert((2 * u.len() + 2) / 2 == u.len() + 1);
    assert forall|i: int| 0 <= i < u.len() + 1 implies #[trigger] units_of_bytes(b)[i] == u.push(
        0,
    )[i] by {
        if i < u.len() {
            assert(b[2 * i] == (u[i] % 256) as u8);
            assert(b[2 * i + 1] == (u[i] / 256) as u8);
        } else {
            assert(b[2 * i] == 0u8);
            assert(b[2 * i + 1] == 0u8);
        }
    }
    assert(units_of_bytes(b) =~= u.push(0));
}

/// What encoding `s` and then decoding the bytes gives back: `s` itself, unless it ends
/// in NUL characters, which the decoding drops along with the terminator.
pub proof fn utf16_round_trip(s: Seq<char>)
    requires
        s.len() == 0 || s.last() != '\0',
    ensures
        utf16_decode(strip_zeros(units_of_bytes(bytes_of_units(utf16_encode(s)) + seq![0u8, 0u8])))
            == s,
{
    let u = utf16_encode(s);
    lemma_units_of_bytes_of_units(u);
    assert(u.push(0).drop_last() =~= u);
    if s.len() > 0 {
        lemma_encode_last_nonzero(s);
    } else {
        assert(u =~= Seq::<u16>::empty());
    }
    assert(u.push(0).last() == 0);
    assert(strip_zeros(u.push(0)) == strip_zeros(u));
    assert(strip_zeros(u) == u);
    lemma_encode_decode(s);
}

fn push_unit(out: &mut Vec<u8>, unit: u16)
    ensures
        final(out)@ == old(out)@ + seq![(unit % 256) as u8, (unit / 256) as u8],
{
    out.push((unit % 256) as u8);
    out.push((unit / 256) as u8);
    assert(final(out)@ =~= old(out)@ + seq![(unit % 256) as u8, (unit / 256) as u8]);
}

/// The little-endian UTF-16 bytes of `s` followed by a two-byte terminator.
pub fn encode_utf16_bytes(s: &[char]) -> (bytes: Vec<u8>)
    ensures
        bytes@ == bytes_of_units(utf16_encode(s@)) + seq![0u8, 0u8],
{
    let mut out: Vec<u8> = Vec::new();
    let mut i: usize = 0;
    let ghost mut units: Seq<u16> = Seq::empty();
    assert(s@.skip(0) =~= s@);
    assert(bytes_of_units(units) =~= out@);
    while i < s.len()
        invariant
            i <= s.len(),
            out@ == bytes_of_units(units),
            utf16_encode(s@) == units + utf16_encode(s@.skip(i as int)),
        decreases s.len() - i,
    {
        proof {
            let rest = s@.skip(i as int);
            assert(rest[0] == s@[i as int]);
            assert(rest.drop_first() =~= s@.skip(i + 1));
        }
        let c = s[i];
        let v: u32 = c as u32;
        let ghost before = units;
        if v < 0x10000 {
            push_unit(&mut out, v as u16);
            proof {
                units = units + seq![v as u16];
            }
        } else {
            let w = v - 0x10000;
            let hi: u16 = (0xD800 + w / 1024) as u16;
            let lo: u16 = (0xDC00 + w % 1024) as u16;
            push_unit(&mut out, hi);
            push_unit(&mut out, lo);
            proof {
                units = units + seq![hi, lo];
            }
        }
        proof {
            assert(units =~= before + char_units(c));
            assert(out@ =~= bytes_of_units(units));
            assert(utf16_encode(s@) =~= units + utf16_encode(s@.skip(i + 1)));
        }
        i = i + 1;
    }
    proof {
        assert(utf16_encode(s@.skip(s.len() as int)) =~= Seq::<u16>::empty());
        assert(units =~= utf16_encode(s@));
    }
    out.push(0);
    out.push(0);
    assert(out@ =~= bytes_of_units(utf16_encode(s@)) + seq![0u8, 0u8]);
    out
}

/// The characters that little-endian UTF-16 `bytes` hold, trailing NUL units dropped and
/// unpaired surrogates replaced by U+FFFD.
pub fn decode_utf16_bytes(bytes: &[u8]) -> (text: Vec<char>)
    ensures
        text@ == utf16_decode(strip_zeros(units_of_bytes(bytes@))),
{
    let n = bytes.len() / 2;
    let mut units: Vec<u16> = Vec::new();
    let mut k: usize = 0;
    while k < n
        invariant
            k <= n,
            n == bytes@.len() / 2,
            units@ == units_of_bytes(bytes@).take(k as int),
        decreases n - k,
    {
        assert(2 * k + 1 < bytes.len()) by (nonlinear_arith)
            requires
                k < n,
                n == bytes.len() / 2,
        ;
        let lo: u32 = bytes[2 * k] as u32;
        let hi: u32 = bytes[2 * k + 1] as u32;
        let unit: u16 = (lo + 256 * hi) as u16;
        units.push(unit);
        assert(units@ =~= units_of_bytes(bytes@).take(k + 1));
        k = k + 1;
    }
    assert(units@ =~= units_of_bytes(bytes@));
    let mut end = units.len();
    while end > 0 && units[end - 1] == 0
        invariant
            end <= units@.len(),
            strip_zeros(units@) == strip_zeros(units@.take(end as int)),
        decreases end,
    {
        assert(units@.take(end as int).drop_last() =~= units@.take(end - 1));
        end = end - 1;
    }
    let ghost u = units@.take(end as int);
    assert(strip_zeros(u) == u);
    let mut out: Vec<char> = Vec::new();
    let mut i: usize = 0;
    assert(u.skip(0) =~= u);
    while i < end
        invariant
            i <= end <= units@.len(),
            u == units@.take(end as int),
            out@ + utf16_decode(u.skip(i as int)) == utf16_decode(u),
        decreases end - i,
    {
        let ghost rest = u.skip(i as int);
        let ghost before = out@;
        let a = units[i];
        assert(rest[0] == a);
        if a < 0xD800 || a > 0xDFFF {
            match char::from_u32(a as u32) {
                Some(c) => out.push(c),
                None => {},
            }
            assert(rest.drop_first() =~= u.skip(i + 1));
            assert(out@ + utf16_decode(u.skip(i + 1)) =~= before + utf16_decode(rest));
            i = i + 1;
        } else if a <= 0xDBFF && i + 1 < end && 0xDC00 <= units[i + 1] && units[i + 1] <= 0xDFFF {
            let b = units[i + 1];
            assert(rest[1] == b);
            let code: u32 = 0x10000 + ((a - 0xD800) as u32) * 1024 + ((b - 0xDC00) as u32);
            match char::from_u32(code) {
                Some(c) => out.push(c),
                None => {},
            }
            assert(rest.skip(2) =~= u.skip(i + 2));
            assert(out@ + utf16_decode(u.skip(i + 2)) =~= before + utf16_decode(rest));
            i = i + 2;
        } else {
            out.push('\u{FFFD}');
            assert(rest.drop_first() =~= u.skip(i + 1));
            assert(out@ + utf16_decode(u.skip(i + 1)) =~= before + utf16_decode(rest));
            i = i + 1;
        }
    }
    assert(utf16_decode(u.skip(end as int)) =~= Seq::<char>::empty());
    assert(out@ =~= utf16_decode(u));
    out
}

} // verus!
