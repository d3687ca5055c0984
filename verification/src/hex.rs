//! Hexadecimal encoding and decoding of content hashes: a hash travels on the
//! wire as fixed-width lowercase hex, and client-supplied tokens are decoded
//! back to raw bytes. Decoding accepts both letter cases; encoding always
//! produces lowercase.
use vstd::prelude::*;

verus! {

/// True of the characters that may appear in a hex-encoded hash.
pub open spec fn is_hex_digit(c: char) -> bool {
    c == '0' || c == '1' || c == '2' || c == '3' || c == '4' || c == '5' || c == '6' || c == '7'
        || c == '8' || c == '9' || c == 'a' || c == 'b' || c == 'c' || c == 'd' || c == 'e'
        || c == 'f' || c == 'A' || c == 'B' || c == 'C' || c == 'D' || c == 'E' || c == 'F'
}

/// The value of one hex digit.
pub open spec fn nibble_of(c: char) -> u8
    recommends
        is_hex_digit(c),
{
    if c == '0' {
        0
    } else if c == '1' {
        1
    } else if c == '2' {
        2
    } else if c == '3' {
        3
    } else if c == '4' {
        4
    } else if c == '5' {
        5
    } else if c == '6' {
        6
    } else if c == '7' {
        7
    } else if c == '8' {
        8
    } else if c == '9' {
        9
    } else if c == 'a' || c == 'A' {
        10
    } else if c == 'b' || c == 'B' {
        11
    } else if c == 'c' || c == 'C' {
        12
    } else if c == 'd' || c == 'D' {
        13
    } else if c == 'e' || c == 'E' {
        14
    } else if c == 'f' || c == 'F' {
        15
    } else {
        0
    }
}

/// The lowercase hex digit for a value below sixteen.
pub open spec fn hex_char(n: u8) -> char
    recommends
        n < 16,
{
    if n == 0 {
        '0'
    } else if n == 1 {
        '1'
    } else if n == 2 {
        '2'
    } else if n == 3 {
        '3'
    } else if n == 4 {
        '4'
    } else if n == 5 {
        '5'
    } else if n == 6 {
        '6'
    } else if n == 7 {
        '7'
    } else if n == 8 {
        '8'
    } else if n == 9 {
        '9'
    } else if n == 10 {
        'a'
    } else if n == 11 {
        'b'
    } else if n == 12 {
        'c'
    } else if n == 13 {
        'd'
    } else if n == 14 {
        'e'
    } else {
        'f'
    }
}

/// All characters of `s` are hex digits.
pub open spec fn all_hex(s: Seq<char>) -> bool {
    forall|i: int| 0 <= i < s.len() ==> is_hex_digit(s[i])
}

/// The lowercase hex encoding of a byte sequence: two digits per byte,
/// high nibble first.
pub open spec fn hex_of_bytes(b: Seq<u8>) -> Seq<char>
    decreases b.len(),
{
    if b.len() == 0 {
        Seq::empty()
    } else {
        seq![hex_char(b[0] / 16), hex_char(b[0] % 16)] + hex_of_bytes(b.drop_first())
    }
}

/// The bytes encoded by an even-length hex sequence.
pub open spec fn bytes_of_hex(s: Seq<char>) -> Seq<u8>
    recommends
        s.len() % 2 == 0,
    decreases s.len(),
{
    if s.len() < 2 {
        Seq::empty()
    } else {
        seq![(16 * nibble_of(s[0]) + nibble_of(s[1])) as u8] + bytes_of_hex(s.skip(2))
    }
}

/// Encoding and then decoding gives back the bytes, for every byte sequence;
/// the encoding is twice as long as the input and made of hex digits only.
pub proof fn lemma_hex_round_trip(b: Seq<u8>)
    ensures
        bytes_of_hex(hex_of_bytes(b)) == b,
        hex_of_bytes(b).len() == 2 * b.len(),
        all_hex(hex_of_bytes(b)),
    decreases b.len(),
{
    if b.len() == 0 {
        assert(bytes_of_hex(hex_of_bytes(b)) =~= b);
    } else {
        lemma_hex_round_trip(b.drop_first());
        let s = hex_of_bytes(b);
        assert(s.skip(2) =~= hex_of_bytes(b.drop_first()));
        assert(16 * nibble_of(s[0]) + nibble_of(s[1]) == b[0]);
        assert(bytes_of_hex(s) =~= b);
        assert forall|i: int| 0 <= i < s.len() implies is_hex_digit(s[i]) by {
            if i >= 2 {
                assert(s[i] == hex_of_bytes(b.drop_first())[i - 2]);
            }
        }
    }
}

/// Executable test for [`is_hex_digit`].
pub fn hex_digit(c: char) -> (r: bool)
    ensures
        r == is_hex_digit(c),
{
    match c {
        '0' | '1' | '2' | '3' | '4' | '5' | '6' | '7' | '8' | '9' => true,
        'a' | 'b' | 'c' | 'd' | 'e' | 'f' => true,
        'A' | 'B' | 'C' | 'D' | 'E' | 'F' => true,
        _ => false,
    }
}

/// Executable hex digit value.
pub fn nibble_val(c: char) -> (r: u8)
    requires
        is_hex_digit(c),
    ensures
        r == nibble_of(c),
        r < 16,
{
    match c {
        '0' => 0,
        '1' => 1,
        '2' => 2,
        '3' => 3,
        '4' => 4,
        '5' => 5,
        '6' => 6,
        '7' => 7,
        '8' => 8,
        '9' => 9,
        'a' | 'A' => 10,
        'b' | 'B' => 11,
        'c' | 'C' => 12,
        'd' | 'D' => 13,
        'e' | 'E' => 14,
        _ => 15,
    }
}

/// Appends the lowercase hex digit for `n` to `out`.
fn push_hex_digit(out: &mut String, n: u8)
    requires
        n < 16,
    ensures
        final(out)@ == old(out)@ + seq![hex_char(n)],
{
    match n {
        0 => {
            proof {
                reveal_strlit("0");
            }
            out.append("0");
        },
        1 => {
            proof {
                reveal_strlit("1");
            }
            out.append("1");
        },
        2 => {
            proof {
                reveal_strlit("2");
            }
            out.append("2");
        },
        3 => {
            proof {
                reveal_strlit("3");
            }
            out.append("3");
        },
        4 => {
            proof {
                reveal_strlit("4");
            }
            out.append("4");
        },
        5 => {
            proof {
                reveal_strlit("5");
            }
            out.append("5");
        },
        6 => {
            proof {
                reveal_strlit("6");
            }
            out.append("6");
        },
        7 => {
            proof {
                reveal_strlit("7");
            }
            out.append("7");
        },
        8 => {
            proof {
                reveal_strlit("8");
            }
            out.append("8");
        },
        9 => {
            proof {
                reveal_strlit("9");
            }
            out.append("9");
        },
        10 => {
            proof {
                reveal_strlit("a");
            }
            out.append("a");
        },
        11 => {
            proof {
                reveal_strlit("b");
            }
            out.append("b");
        },
        12 => {
            proof {
                reveal_strlit("c");
            }
            out.append("c");
        },
        13 => {
            proof {
                reveal_strlit("d");
            }
            out.append("d");
        },
        14 => {
            proof {
                reveal_strlit("e");
            }
            out.append("e");
        },
        _ => {
            proof {
                reveal_strlit("f");
            }
            out.append("f");
        },
    }
}

/// Appends the lowercase hex encoding of `b` to `out`.
pub fn append_hex(out: &mut String, b: &Vec<u8>)
    ensures
        final(out)@ == old(out)@ + hex_of_bytes(b@),
{
    let ghost start = out@;
    let mut i: usize = 0;
    proof {
        assert(out@ =~= start + hex_of_bytes(b@.take(0)));
    }
    while i < b.len()
        invariant
            i <= b@.len(),
            out@ == start + hex_of_bytes(b@.take(i as int)),
        decreases b@.len() - i,
    {
        let byte = b[i];
        push_hex_digit(out, byte / 16);
        push_hex_digit(out, byte % 16);
        proof {
            lemma_hex_prefix_snoc(b@, i as int);
            assert(out@ =~= start + hex_of_bytes(b@.take(i + 1)));
        }
        i = i + 1;
    }
    proof {
        assert(b@.take(b@.len() as int) =~= b@);
    }
}

/// Extending the encoded prefix by one byte appends that byte's two digits.
proof fn lemma_hex_prefix_snoc(b: Seq<u8>, i: int)
    requires
        0 <= i < b.len(),
    ensures
        hex_of_bytes(b.take(i + 1)) == hex_of_bytes(b.take(i)) + seq![
            hex_char(b[i] / 16),
            hex_char(b[i] % 16),
        ],
    decreases i,
{
    if i == 0 {
        assert(b.take(1).drop_first() =~= Seq::<u8>::empty());
        assert(hex_of_bytes(b.take(1).drop_first()) == Seq::<char>::empty());
        assert(b.take(1)[0] == b[0]);
        assert(hex_of_bytes(b.take(1)) =~= hex_of_bytes(b.take(0)) + seq![
            hex_char(b[0] / 16),
            hex_char(b[0] % 16),
        ]);
    } else {
        lemma_hex_prefix_snoc(b.drop_first(), i - 1);
        assert(b.take(i + 1).drop_first() =~= b.drop_first().take(i));
        assert(b.take(i).drop_first() =~= b.drop_first().take(i - 1));
        assert(hex_of_bytes(b.take(i + 1)) =~= hex_of_bytes(b.take(i)) + seq![
            hex_char(b[i] / 16),
            hex_char(b[i] % 16),
        ]);
    }
}

/// Decodes `2 * count` hex characters of `s`, starting at `from`, into bytes.
pub fn decode_hex(s: &str, from: usize, count: usize) -> (r: Vec<u8>)
    requires
        from + 2 * count <= s@.len(),
        all_hex(s@.subrange(from as int, from as int + 2 * count as int)),
    ensures
        r@ == bytes_of_hex(s@.subrange(from as int, from as int + 2 * count as int)),
        r@.len() == count,
{
    let ghost whole = s@.subrange(from as int, from as int + 2 * count as int);
    let n = s.unicode_len();
    let mut r: Vec<u8> = Vec::new();
    let mut i: usize = 0;
    proof {
        lemma_bytes_of_hex_len(whole);
    }
    while i < count
        invariant
            i <= count,
            n == s@.len(),
            from + 2 * count <= s@.len(),
            whole == s@.subrange(from as int, from as int + 2 * count as int),
            all_hex(whole),
            r@ == bytes_of_hex(whole.take(2 * i as int)),
            r@.len() == i,
        decreases count - i,
    {
        let hi = s.get_char(from + 2 * i);
        let lo = s.get_char(from + 2 * i + 1);
        proof {
            assert(s@.subrange(from as int, from as int + 2 * count as int)[2 * i as int]
                == s@[from as int + 2 * i]);
            assert(s@.subrange(from as int, from as int + 2 * count as int)[2 * i as int + 1]
                == s@[from as int + 2 * i + 1]);
        }
        assert(hi == whole[2 * i as int] && is_hex_digit(hi));
        assert(lo == whole[2 * i as int + 1] && is_hex_digit(lo));
        let byte: u8 = 16 * nibble_val(hi) + nibble_val(lo);
        r.push(byte);
        proof {
            lemma_bytes_prefix_snoc(whole, i as int);
            assert(r@ =~= bytes_of_hex(whole.take(2 * (i + 1))));
        }
        i = i + 1;
    }
    proof {
        assert(whole.take(2 * count as int) =~= whole);
    }
    r
}

/// An even-length hex sequence decodes to half as many bytes.
pub proof fn lemma_bytes_of_hex_len(s: Seq<char>)
    requires
        s.len() % 2 == 0,
    ensures
        bytes_of_hex(s).len() == s.len() / 2,
    decreases s.len(),
{
    if s.len() >= 2 {
        lemma_bytes_of_hex_len(s.skip(2));
    }
}

/// Decoding one more digit pair appends one byte.
proof fn lemma_bytes_prefix_snoc(s: Seq<char>, i: int)
    requires
        0 <= i,
        2 * i + 2 <= s.len(),
    ensures
        bytes_of_hex(s.take(2 * i + 2)) == bytes_of_hex(s.take(2 * i)) + seq![
            (16 * nibble_of(s[2 * i]) + nibble_of(s[2 * i + 1])) as u8,
        ],
    decreases i,
{
    if i == 0 {
        assert(s.take(2).skip(2) =~= Seq::<char>::empty());
        assert(bytes_of_hex(s.take(2).skip(2)) == Seq::<u8>::empty());
        assert(s.take(2)[0] == s[0] && s.take(2)[1] == s[1]);
        assert(bytes_of_hex(s.take(2)) =~= bytes_of_hex(s.take(0)) + seq![
            (16 * nibble_of(s[0]) + nibble_of(s[1])) as u8,
        ]);
    } else {
        lemma_bytes_prefix_snoc(s.skip(2), i - 1);
        assert(s.take(2 * i + 2).skip(2) =~= s.skip(2).take(2 * i));
        assert(s.take(2 * i).skip(2) =~= s.skip(2).take(2 * i - 2));
        assert(bytes_of_hex(s.take(2 * i + 2)) =~= bytes_of_hex(s.take(2 * i)) + seq![
            (16 * nibble_of(s[2 * i]) + nibble_of(s[2 * i + 1])) as u8,
        ]);
    }
}

} // verus!
