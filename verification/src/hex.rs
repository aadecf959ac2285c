//! Hexadecimal rendering of byte strings for reports, with long strings
//! shortened to their first and last characters around an ellipsis.

use vstd::prelude::*;
use vstd::string::StringExecFns;

verus! {

/// The lower-case hexadecimal digit for a value below 16.
pub open spec fn hex_digit(n: u8) -> char {
    if n == 0 {
        '0'
    } else if n == 1 {
        '1'
    } else if n == 2 {
        '2'
    } else if n == 3 {
        '3'
    } else if n == 4 {
        '4'
    } else if n == 5 {
        '5'
    } else if n == 6 {
        '6'
    } else if n == 7 {
        '7'
    } else if n == 8 {
        '8'
    } else if n == 9 {
        '9'
    } else if n == 10 {
        'a'
    } else if n == 11 {
        'b'
    } else if n == 12 {
        'c'
    } else if n == 13 {
        'd'
    } else if n == 14 {
        'e'
    } else {
        'f'
    }
}

/// The character at position `p` of the hexadecimal rendering: each byte
/// contributes its high nibble, then its low nibble.
pub open spec fn hex_char_at(bytes: Seq<u8>, p: int) -> char {
    if p % 2 == 0 {
        hex_digit(bytes[p / 2] >> 4)
    } else {
        hex_digit(bytes[p / 2] & 0xf)
    }
}

/// The full hexadecimal rendering: two characters for each byte.
pub open spec fn hex_str(bytes: Seq<u8>) -> Seq<char> {
    Seq::new(bytes.len() * 2, |p: int| hex_char_at(bytes, p))
}

/// The ellipsis placed between the kept ends of a shortened rendering.
pub open spec fn ellipsis() -> Seq<char> {
    seq!['.', '.', '.']
}

fn push_hex_digit(s: &mut String, n: u8)
    requires
        n < 16,
    ensures
        final(s)@ == old(s)@.push(hex_digit(n)),
{
    if n == 0 {
        s.append("0");
        proof {
            reveal_strlit("0");
        }
    } else if n == 1 {
        s.append("1");
        proof {
            reveal_strlit("1");
        }
    } else if n == 2 {
        s.append("2");
        proof {
            reveal_strlit("2");
        }
    } else if n == 3 {
        s.append("3");
        proof {
            reveal_strlit("3");
        }
    } else if n == 4 {
        s.append("4");
        proof {
            reveal_strlit("4");
        }
    } else if n == 5 {
        s.append("5");
        proof {
            reveal_strlit("5");
        }
    } else if n == 6 {
        s.append("6");
        proof {
            reveal_strlit("6");
        }
    } else if n == 7 {
        s.append("7");
        proof {
            reveal_strlit("7");
        }
    } else if n == 8 {
        s.append("8");
        proof {
            reveal_strlit("8");
        }
    } else if n == 9 {
        s.append("9");
        proof {
            reveal_strlit("9");
        }
    } else if n == 10 {
        s.append("a");
        proof {
            reveal_strlit("a");
        }
    } else if n == 11 {
        s.append("b");
        proof {
            reveal_strlit("b");
        }
    } else if n == 12 {
        s.append("c");
        proof {
            reveal_strlit("c");
        }
    } else if n == 13 {
        s.append("d");
        proof {
            reveal_strlit("d");
        }
    } else if n == 14 {
        s.append("e");
        proof {
            reveal_strlit("e");
        }
    } else {
        s.append("f");
        proof {
            reveal_strlit("f");
        }
    }
    proof {
        assert(s@ =~= old(s)@.push(hex_digit(n)));
    }
}

/// Appends the hexadecimal characters at positions `from..to` to `s`.
fn push_hex_range(s: &mut String, bytes: &Vec<u8>, from: usize, to: usize)
    requires
        from <= to,
        to <= bytes@.len() * 2,
        bytes@.len() * 2 <= usize::MAX,
    ensures
        final(s)@ == old(s)@ + hex_str(bytes@).subrange(from as int, to as int),
{
    let mut p: usize = from;
    while p < to
        invariant
            from <= p <= to,
            to <= bytes@.len() * 2,
            bytes@.len() * 2 <= usize::MAX,
            s@ == old(s)@ + hex_str(bytes@).subrange(from as int, p as int),
        decreases to - p,
    {
        let byte = bytes[p / 2];
        let nibble: u8 = if p % 2 == 0 {
            byte >> 4
        } else {
            byte & 0xf
        };
        proof {
            assert((byte >> 4) < 16 && (byte & 0xf) < 16) by (bit_vector);
            assert(hex_str(bytes@)[p as int] == hex_char_at(bytes@, p as int));
        }
        push_hex_digit(s, nibble);
        proof {
            assert(hex_str(bytes@).subrange(from as int, p as int + 1) =~= hex_str(
                bytes@).subrange(from as int, p as int).push(hex_str(bytes@)[p as int]));
            assert(s@ =~= old(s)@ + hex_str(bytes@).subrange(from as int, p as int + 1));
        }
        p += 1;
    }
}

/// The hexadecimal rendering of `bytes`: in full when it has at most
/// `max_length` characters, otherwise its first `max_length` and last
/// `max_length` characters around an ellipsis.
pub fn format_bytes(bytes: &Vec<u8>, max_length: usize) -> (r: String)
    requires
        bytes@.len() * 2 <= usize::MAX,
    ensures
        r@ == if bytes@.len() * 2 > max_length {
            hex_str(bytes@).take(max_length as int) + ellipsis() + hex_str(bytes@).skip(
                bytes@.len() * 2 - max_length)
        } else {
            hex_str(bytes@)
        },
{
    let total = bytes.len() * 2;
    let mut s = String::new();
    if total > max_length {
        push_hex_range(&mut s, bytes, 0, max_length);
        s.append("...");
        proof {
            reveal_strlit("...");
            assert("..."@ =~= ellipsis());
        }
        push_hex_range(&mut s, bytes, total - max_length, total);
        proof {
            assert(hex_str(bytes@).subrange(0, max_length as int) =~= hex_str(bytes@).take(
                max_length as int));
            assert(hex_str(bytes@).subrange(total - max_length, total as int) =~= hex_str(
                bytes@).skip(bytes@.len() * 2 - max_length));
        }
    } else {
        push_hex_range(&mut s, bytes, 0, total);
        proof {
            assert(hex_str(bytes@).subrange(0, total as int) =~= hex_str(bytes@));
        }
    }
    s
}

} // verus!
