use vstd::prelude::*;

verus! {

/// One shift of the CRC16 register (polynomial 0x1021).
pub open spec fn crc_shift(c: u16) -> u16 {
    if (c & 0x8000u16) != 0u16 {
        ((c << 1u16) ^ 0x1021u16) as u16
    } else {
        (c << 1u16) as u16
    }
}

/// The register after `n` shifts.
pub open spec fn crc_shifts(c: u16, n: nat) -> u16
    decreases n,
{
    if n == 0 {
        c
    } else {
        crc_shifts(crc_shift(c), (n - 1) as nat)
    }
}

/// The register after one more byte.
pub open spec fn crc_byte(c: u16, b: u8) -> u16 {
    crc_shifts((c ^ ((b as u16) << 8u16)) as u16, 8)
}

/// CRC16 (XMODEM) of a byte sequence.
pub open spec fn crc16(s: Seq<u8>) -> u16
    decreases s.len(),
{
    if s.len() == 0 {
        0
    } else {
        crc_byte(crc16(s.drop_last()), s.last())
    }
}

/// The first position at or after `from` that holds `b`, or `s.len()` if none does.
pub open spec fn find_from(s: Seq<u8>, b: u8, from: int) -> int
    decreases s.len() - from,
{
    if from < 0 || from >= s.len() {
        s.len() as int
    } else if s[from] == b {
        from
    } else {
        find_from(s, b, from + 1)
    }
}

/// The part of a key that decides its slot: the text between the first `{` and
/// the first `}` after it, when that text is not empty; the whole key otherwise.
pub open spec fn hash_tag(k: Seq<u8>) -> Seq<u8> {
    let open = find_from(k, 0x7bu8, 0);
    let close = find_from(k, 0x7du8, open + 1);
    if open < k.len() && close < k.len() && close > open + 1 {
        k.subrange(open + 1, close)
    } else {
        k
    }
}

/// The hash slot of a key.
pub open spec fn key_slot(k: Seq<u8>) -> u16 {
    (crc16(hash_tag(k)) % 16384) as u16
}

fn shift(c: u16) -> (r: u16)
    ensures
        r == crc_shift(c),
{
    if (c & 0x8000u16) != 0u16 {
        (c << 1u16) ^ 0x1021u16
    } else {
        c << 1u16
    }
}

fn add_byte(c: u16, b: u8) -> (r: u16)
    ensures
        r == crc_byte(c, b),
{
    let mut x: u16 = c ^ ((b as u16) << 8u16);
    let ghost x0 = x;
    let mut n: usize = 0;
    while n < 8
        invariant
            n <= 8,
            crc_shifts(x0, 8) == crc_shifts(x, (8 - n) as nat),
        decreases 8 - n,
    {
        x = shift(x);
        n = n + 1;
    }
    x
}

fn crc16_range(s: &[u8], lo: usize, hi: usize) -> (r: u16)
    requires
        lo <= hi <= s@.len(),
    ensures
        r == crc16(s@.subrange(lo as int, hi as int)),
{
    let mut c: u16 = 0;
    let mut i: usize = lo;
    assert(s@.subrange(lo as int, lo as int) =~= Seq::<u8>::empty());
    while i < hi
        invariant
            lo <= i <= hi,
            hi <= s@.len(),
            c == crc16(s@.subrange(lo as int, i as int)),
        decreases hi - i,
    {
        assert(s@.subrange(lo as int, i + 1).drop_last() =~= s@.subrange(lo as int, i as int));
        c = add_byte(c, s[i]);
        i = i + 1;
    }
    c
}

fn find(s: &[u8], b: u8, from: usize) -> (r: usize)
    requires
        from <= s@.len(),
    ensures
        r == find_from(s@, b, from as int),
{
    let mut i: usize = from;
    while i < s.len()
        invariant
            from <= i <= s@.len(),
            find_from(s@, b, from as int) == find_from(s@, b, i as int),
        decreases s@.len() - i,
    {
        if s[i] == b {
            return i;
        }
        i = i + 1;
    }
    i
}

/// The hash slot of `key`: CRC16 of its hash tag, modulo the number of slots.
pub fn hash_slot(key: &[u8]) -> (r: u16)
    ensures
        r == key_slot(key@),
        r < 16384,
{
    let open = find(key, 0x7bu8, 0);
    let tagged = if open < key.len() {
        let close = find(key, 0x7du8, open + 1);
        if close < key.len() && close > open + 1 {
            crc16_range(key, open + 1, close)
        } else {
            crc16_range(key, 0, key.len())
        }
    } else {
        crc16_range(key, 0, key.len())
    };
    assert(key@.subrange(0, key@.len() as int) =~= key@);
    tagged % 16384
}

} // verus!
