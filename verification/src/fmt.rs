//! Verified building blocks for the dashboard's formatted panel strings:
//! decimal and hexadecimal rendering, space and zero padding, and
//! character-based truncation, each proved against a spec-level
//! description of the produced character sequence.

use vstd::prelude::*;
use vstd::string::{StrSliceExecFns, StringExecFns};

verus! {

/// The decimal digit character for `d` (meaningful for `d < 10`).
pub open spec fn digit_char(d: nat) -> char {
    if d == 0 {
        '0'
    } else if d == 1 {
        '1'
    } else if d == 2 {
        '2'
    } else if d == 3 {
        '3'
    } else if d == 4 {
        '4'
    } else if d == 5 {
        '5'
    } else if d == 6 {
        '6'
    } else if d == 7 {
        '7'
    } else if d == 8 {
        '8'
    } else {
        '9'
    }
}

/// The uppercase hexadecimal digit character for `d` (meaningful for `d < 16`).
pub open spec fn hex_char(d: nat) -> char {
    if d < 10 {
        digit_char(d)
    } else if d == 10 {
        'A'
    } else if d == 11 {
        'B'
    } else if d == 12 {
        'C'
    } else if d == 13 {
        'D'
    } else if d == 14 {
        'E'
    } else {
        'F'
    }
}

/// The decimal form of `n`, most significant digit first.
pub open spec fn dec_str(n: nat) -> Seq<char>
    decreases n,
{
    if n < 10 {
        seq![digit_char(n)]
    } else {
        dec_str(n / 10).push(digit_char(n % 10))
    }
}

/// The uppercase hexadecimal form of `n`, most significant digit first.
pub open spec fn hex_str(n: nat) -> Seq<char>
    decreases n,
{
    if n < 16 {
        seq![hex_char(n)]
    } else {
        hex_str(n / 16).push(hex_char(n % 16))
    }
}

/// `n` copies of the character `c`.
pub open spec fn repeated(c: char, n: nat) -> Seq<char>
    decreases n,
{
    if n == 0 {
        Seq::empty()
    } else {
        repeated(c, (n - 1) as nat).push(c)
    }
}

/// `s` right-aligned in a field of width `w`, padded with spaces on the left;
/// `s` unchanged when it already fills the field.
pub open spec fn pad_left(s: Seq<char>, w: nat) -> Seq<char> {
    if s.len() >= w {
        s
    } else {
        repeated(' ', (w - s.len()) as nat) + s
    }
}

/// `s` left-aligned in a field of width `w`, padded with spaces on the right.
pub open spec fn pad_right(s: Seq<char>, w: nat) -> Seq<char> {
    if s.len() >= w {
        s
    } else {
        s + repeated(' ', (w - s.len()) as nat)
    }
}

/// `s` zero-padded on the left to width `w`.
pub open spec fn zero_pad(s: Seq<char>, w: nat) -> Seq<char> {
    if s.len() >= w {
        s
    } else {
        repeated('0', (w - s.len()) as nat) + s
    }
}

/// The first `max` characters of `s`, or all of `s` when it is shorter.
pub open spec fn truncated(s: Seq<char>, max: nat) -> Seq<char> {
    if s.len() <= max {
        s
    } else {
        s.subrange(0, max as int)
    }
}

/// The rows concatenated in order, each followed by a newline.
pub open spec fn lines_cat(rows: Seq<Seq<char>>) -> Seq<char>
    decreases rows.len(),
{
    if rows.len() == 0 {
        Seq::empty()
    } else {
        rows[0] + "\n"@ + lines_cat(rows.drop_first())
    }
}

/// Appending one more row extends the concatenation at the end.
pub proof fn lemma_lines_cat_push(rows: Seq<Seq<char>>, x: Seq<char>)
    ensures
        lines_cat(rows.push(x)) == lines_cat(rows) + x + "\n"@,
    decreases rows.len(),
{
    if rows.len() == 0 {
        assert(rows.push(x).drop_first() =~= Seq::<Seq<char>>::empty());
        assert(rows.push(x)[0] == x);
        assert(lines_cat(rows.push(x)) == x + "\n"@ + lines_cat(Seq::<Seq<char>>::empty()));
        assert(x + "\n"@ + lines_cat(Seq::<Seq<char>>::empty()) =~= lines_cat(rows) + x + "\n"@);
    } else {
        lemma_lines_cat_push(rows.drop_first(), x);
        assert(rows.push(x).drop_first() =~= rows.drop_first().push(x));
        let head = rows[0] + "\n"@;
        let rest = lines_cat(rows.drop_first());
        assert(rows.push(x)[0] == rows[0]);
        assert(lines_cat(rows.push(x)) == head + (rest + x + "\n"@));
        assert(head + (rest + x + "\n"@) =~= (head + rest) + x + "\n"@);
    }
}

/// Appends one decimal digit character.
pub fn push_digit(s: &mut String, d: u8)
    requires
        d < 10,
    ensures
        final(s)@ == old(s)@ + seq![digit_char(d as nat)],
{
    match d {
        0 => {
            s.append("0");
            proof {
                reveal_strlit("0");
                assert(s@ =~= old(s)@ + seq![digit_char(d as nat)]);
            }
        },
        1 => {
            s.append("1");
            proof {
                reveal_strlit("1");
                assert(s@ =~= old(s)@ + seq![digit_char(d as nat)]);
            }
        },
        2 => {
            s.append("2");
            proof {
                reveal_strlit("2");
                assert(s@ =~= old(s)@ + seq![digit_char(d as nat)]);
            }
        },
        3 => {
            s.append("3");
            proof {
                reveal_strlit("3");
                assert(s@ =~= old(s)@ + seq![digit_char(d as nat)]);
            }
        },
        4 => {
            s.append("4");
            proof {
                reveal_strlit("4");
                assert(s@ =~= old(s)@ + seq![digit_char(d as nat)]);
            }
        },
        5 => {
            s.append("5");
            proof {
                reveal_strlit("5");
                assert(s@ =~= old(s)@ + seq![digit_char(d as nat)]);
            }
        },
        6 => {
            s.append("6");
            proof {
                reveal_strlit("6");
                assert(s@ =~= old(s)@ + seq![digit_char(d as nat)]);
            }
        },
        7 => {
            s.append("7");
            proof {
                reveal_strlit("7");
                assert(s@ =~= old(s)@ + seq![digit_char(d as nat)]);
            }
        },
        8 => {
            s.append("8");
            proof {
                reveal_strlit("8");
                assert(s@ =~= old(s)@ + seq![digit_char(d as nat)]);
            }
        },
        _ => {
            s.append("9");
            proof {
                reveal_strlit("9");
                assert(s@ =~= old(s)@ + seq![digit_char(d as nat)]);
            }
        },
    }
}

/// Appends one uppercase hexadecimal digit character.
pub fn push_hex_digit(s: &mut String, d: u8)
    requires
        d < 16,
    ensures
        final(s)@ == old(s)@ + seq![hex_char(d as nat)],
{
    if d < 10 {
        push_digit(s, d);
    } else {
        match d {
            10 => {
                s.append("A");
                proof {
                    reveal_strlit("A");
                    assert(s@ =~= old(s)@ + seq![hex_char(d as nat)]);
                }
            },
            11 => {
                s.append("B");
                proof {
                    reveal_strlit("B");
                    assert(s@ =~= old(s)@ + seq![hex_char(d as nat)]);
                }
            },
            12 => {
                s.append("C");
                proof {
                    reveal_strlit("C");
                    assert(s@ =~= old(s)@ + seq![hex_char(d as nat)]);
                }
            },
            13 => {
                s.append("D");
                proof {
                    reveal_strlit("D");
                    assert(s@ =~= old(s)@ + seq![hex_char(d as nat)]);
                }
            },
            14 => {
                s.append("E");
                proof {
                    reveal_strlit("E");
                    assert(s@ =~= old(s)@ + seq![hex_char(d as nat)]);
                }
            },
            _ => {
                s.append("F");
                proof {
                    reveal_strlit("F");
                    assert(s@ =~= old(s)@ + seq![hex_char(d as nat)]);
                }
            },
        }
    }
}

/// Appends the decimal form of `n`.
pub fn push_dec(s: &mut String, n: u64)
    ensures
        final(s)@ == old(s)@ + dec_str(n as nat),
    decreases n,
{
    if n >= 10 {
        proof {
            assert(n / 10 < n) by (nonlinear_arith)
                requires
                    n >= 10,
            ;
        }
        push_dec(s, n / 10);
    }
    push_digit(s, (n % 10) as u8);
    proof {
        assert(s@ =~= old(s)@ + dec_str(n as nat));
    }
}

/// Appends the uppercase hexadecimal form of `n`.
pub fn push_hex(s: &mut String, n: u64)
    ensures
        final(s)@ == old(s)@ + hex_str(n as nat),
    decreases n,
{
    if n >= 16 {
        proof {
            assert(n / 16 < n) by (nonlinear_arith)
                requires
                    n >= 16,
            ;
        }
        push_hex(s, n / 16);
    }
    push_hex_digit(s, (n % 16) as u8);
    proof {
        assert(s@ =~= old(s)@ + hex_str(n as nat));
    }
}

/// Appends `n` copies of the single character held by `unit`.
pub fn push_repeat(s: &mut String, unit: &str, n: usize)
    requires
        unit@.len() == 1,
    ensures
        final(s)@ == old(s)@ + repeated(unit@[0], n as nat),
{
    let mut i: usize = 0;
    while i < n
        invariant
            i <= n,
            unit@.len() == 1,
            s@ == old(s)@ + repeated(unit@[0], i as nat),
        decreases n - i,
    {
        s.append(unit);
        i = i + 1;
        proof {
            assert(s@ =~= old(s)@ + repeated(unit@[0], i as nat));
        }
    }
}

/// Appends `t` right-aligned in a field of `w` characters.
pub fn push_pad_left(s: &mut String, t: &str, w: usize)
    ensures
        final(s)@ == old(s)@ + pad_left(t@, w as nat),
{
    let l = t.unicode_len();
    if l < w {
        proof {
            reveal_strlit(" ");
        }
        push_repeat(s, " ", w - l);
    }
    s.append(t);
    proof {
        assert(s@ =~= old(s)@ + pad_left(t@, w as nat));
    }
}

/// Appends `t` left-aligned in a field of `w` characters.
pub fn push_pad_right(s: &mut String, t: &str, w: usize)
    ensures
        final(s)@ == old(s)@ + pad_right(t@, w as nat),
{
    let l = t.unicode_len();
    s.append(t);
    if l < w {
        proof {
            reveal_strlit(" ");
        }
        push_repeat(s, " ", w - l);
    }
    proof {
        assert(s@ =~= old(s)@ + pad_right(t@, w as nat));
    }
}

/// Appends the decimal form of `n`, right-aligned in `w` characters.
pub fn push_dec_pad_left(s: &mut String, n: u64, w: usize)
    ensures
        final(s)@ == old(s)@ + pad_left(dec_str(n as nat), w as nat),
{
    let mut t = String::new();
    push_dec(&mut t, n);
    proof {
        assert(t@ =~= dec_str(n as nat));
    }
    push_pad_left(s, t.as_str(), w);
}

/// Appends the decimal form of `n`, left-aligned in `w` characters.
pub fn push_dec_pad_right(s: &mut String, n: u64, w: usize)
    ensures
        final(s)@ == old(s)@ + pad_right(dec_str(n as nat), w as nat),
{
    let mut t = String::new();
    push_dec(&mut t, n);
    proof {
        assert(t@ =~= dec_str(n as nat));
    }
    push_pad_right(s, t.as_str(), w);
}

/// Appends `0x` followed by the hexadecimal form of `n`, zero-padded to
/// `digits` digit positions.
pub fn push_hex_prefixed(s: &mut String, n: u64, digits: usize)
    ensures
        final(s)@ == old(s)@ + "0x"@ + zero_pad(hex_str(n as nat), digits as nat),
{
    let mut t = String::new();
    push_hex(&mut t, n);
    proof {
        assert(t@ =~= hex_str(n as nat));
    }
    s.append("0x");
    let l = t.unicode_len();
    if l < digits {
        proof {
            reveal_strlit("0");
        }
        push_repeat(s, "0", digits - l);
    }
    s.append(t.as_str());
    proof {
        assert(s@ =~= old(s)@ + "0x"@ + zero_pad(hex_str(n as nat), digits as nat));
    }
}

/// Appends at most the first `max` characters of `t`.
pub fn push_truncated(s: &mut String, t: &str, max: usize)
    ensures
        final(s)@ == old(s)@ + truncated(t@, max as nat),
{
    let l = t.unicode_len();
    if l <= max {
        s.append(t);
    } else {
        let head = t.substring_char(0, max);
        s.append(head);
    }
    proof {
        assert(s@ =~= old(s)@ + truncated(t@, max as nat));
    }
}

/// The decimal form of `n` as a fresh string.
pub fn dec_string(n: u64) -> (r: String)
    ensures
        r@ == dec_str(n as nat),
{
    let mut t = String::new();
    push_dec(&mut t, n);
    proof {
        assert(t@ =~= dec_str(n as nat));
    }
    t
}

} // verus!
