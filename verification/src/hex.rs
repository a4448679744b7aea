//! Verified lowercase hexadecimal rendering, used for the master-password
//! fingerprint.

use vstd::prelude::*;
use vstd::string::StringExecFns;

verus! {

/// The lowercase character standing for one hexadecimal digit value.
pub open spec fn hex_digit_char(d: u8) -> char {
    if d == 0 {
        '0'
    } else if d == 1 {
        '1'
    } else if d == 2 {
        '2'
    } else if d == 3 {
        '3'
    } else if d == 4 {
        '4'
    } else if d == 5 {
        '5'
    } else if d == 6 {
        '6'
    } else if d == 7 {
        '7'
    } else if d == 8 {
        '8'
    } else if d == 9 {
        '9'
    } else if d == 10 {
        'a'
    } else if d == 11 {
        'b'
    } else if d == 12 {
        'c'
    } else if d == 13 {
        'd'
    } else if d == 14 {
        'e'
    } else {
        'f'
    }
}

/// Lowercase hexadecimal rendering of a byte sequence, two digits per byte,
/// high digit first.
pub open spec fn hex_str(bytes: Seq<u8>) -> Seq<char>
    decreases bytes.len(),
{
    if bytes.len() == 0 {
        Seq::empty()
    } else {
        seq![hex_digit_char(bytes[0] / 16), hex_digit_char(bytes[0] % 16)] + hex_str(
            bytes.drop_first(),
        )
    }
}

proof fn lemma_hex_str_push(bytes: Seq<u8>, b: u8)
    ensures
        hex_str(bytes.push(b)) == hex_str(bytes) + seq![
            hex_digit_char(b / 16),
            hex_digit_char(b % 16),
        ],
    decreases bytes.len(),
{
    if bytes.len() == 0 {
        assert(bytes =~= Seq::<u8>::empty());
        assert(bytes.push(b).drop_first() =~= bytes);
        assert(bytes.push(b)[0] == b);
        assert(hex_str(bytes) =~= Seq::<char>::empty());
        assert(hex_str(bytes.push(b)) =~= hex_str(bytes) + seq![
            hex_digit_char(b / 16),
            hex_digit_char(b % 16),
        ]);
    } else {
        assert(bytes.push(b).drop_first() =~= bytes.drop_first().push(b));
        lemma_hex_str_push(bytes.drop_first(), b);
        assert(hex_str(bytes.push(b)) =~= hex_str(bytes) + seq![
            hex_digit_char(b / 16),
            hex_digit_char(b % 16),
        ]);
    }
}

fn hex_digit(d: u8) -> (r: &'static str)
    requires
        d < 16,
    ensures
        r@ == seq![hex_digit_char(d)],
{
    let r: &'static str = if d == 0 {
        "0"
    } else if d == 1 {
        "1"
    } else if d == 2 {
        "2"
    } else if d == 3 {
        "3"
    } else if d == 4 {
        "4"
    } else if d == 5 {
        "5"
    } else if d == 6 {
        "6"
    } else if d == 7 {
        "7"
    } else if d == 8 {
        "8"
    } else if d == 9 {
        "9"
    } else if d == 10 {
        "a"
    } else if d == 11 {
        "b"
    } else if d == 12 {
        "c"
    } else if d == 13 {
        "d"
    } else if d == 14 {
        "e"
    } else {
        "f"
    };
    proof {
        reveal_strlit("0");
        reveal_strlit("1");
        reveal_strlit("2");
        reveal_strlit("3");
        reveal_strlit("4");
        reveal_strlit("5");
        reveal_strlit("6");
        reveal_strlit("7");
        reveal_strlit("8");
        reveal_strlit("9");
        reveal_strlit("a");
        reveal_strlit("b");
        reveal_strlit("c");
        reveal_strlit("d");
        reveal_strlit("e");
        reveal_strlit("f");
        assert(r@ =~= seq![hex_digit_char(d)]);
    }
    r
}

/// Renders the first `count` bytes of `bytes` as lowercase hexadecimal.
pub fn to_hex_prefix(bytes: &Vec<u8>, count: usize) -> (r: String)
    requires
        count <= bytes@.len(),
    ensures
        r@ == hex_str(bytes@.take(count as int)),
{
    let mut r = String::new();
    proof {
        assert(bytes@.take(0) =~= Seq::<u8>::empty());
    }
    let mut i: usize = 0;
    while i < count
        invariant
            count <= bytes@.len(),
            i <= count,
            r@ == hex_str(bytes@.take(i as int)),
        decreases count - i,
    {
        let b = bytes[i];
        let hi = b / 16;
        let lo = b % 16;
        r.append(hex_digit(hi));
        r.append(hex_digit(lo));
        proof {
            lemma_hex_str_push(bytes@.take(i as int), b);
            assert(bytes@.take(i as int).push(b) =~= bytes@.take(i as int + 1));
            assert(r@ =~= hex_str(bytes@.take(i as int + 1)));
        }
        i += 1;
    }
    r
}

} // verus!
