use vstd::prelude::*;
use vstd::string::*;

verus! {

/// The decimal digit `d` as a character.
pub open spec fn digit_char(d: int) -> char {
    if d == 0 {
        '0'
    } else if d == 1 {
        '1'
    } else if d == 2 {
        '2'
    } else if d == 3 {
        '3'
    } else if d == 4 {
        '4'
    } else if d == 5 {
        '5'
    } else if d == 6 {
        '6'
    } else if d == 7 {
        '7'
    } else if d == 8 {
        '8'
    } else {
        '9'
    }
}

/// `v` written in decimal, without leading zeros.
pub open spec fn decimal(v: nat) -> Seq<char>
    decreases v,
{
    if v < 10 {
        seq![digit_char(v as int)]
    } else {
        decimal(v / 10) + seq![digit_char((v % 10) as int)]
    }
}

/// The text of decimal digit `d`.
fn digit_str(d: usize) -> (r: &'static str)
    requires
        d < 10,
    ensures
        r@ == seq![digit_char(d as int)],
{
    proof {
        reveal_strlit("0");
        reveal_strlit("1");
        reveal_strlit("2");
        reveal_strlit("3");
        reveal_strlit("4");
        reveal_strlit("5");
        reveal_strlit("6");
        reveal_strlit("7");
        reveal_strlit("8");
        reveal_strlit("9");
    }
    if d == 0 {
        "0"
    } else if d == 1 {
        "1"
    } else if d == 2 {
        "2"
    } else if d == 3 {
        "3"
    } else if d == 4 {
        "4"
    } else if d == 5 {
        "5"
    } else if d == 6 {
        "6"
    } else if d == 7 {
        "7"
    } else if d == 8 {
        "8"
    } else {
        "9"
    }
}

/// Appends `v` in decimal to `s`.
fn push_decimal(s: &mut String, v: usize)
    ensures
        final(s)@ == old(s)@ + decimal(v as nat),
    decreases v,
{
    if v >= 10 {
        push_decimal(s, v / 10);
    }
    s.append(digit_str(v % 10));
    assert(final(s)@ =~= old(s)@ + decimal(v as nat));
}

/// The one-line description of an instruction, from its decoded fields;
/// empty for the instructions that have none. The register-to-register
/// texts are keyed on code `0x0800`, and a load shows the 12-bit operand.
pub open spec fn instr_text(code: u16, x: nat, y: nat, n: nat, nn: nat, nnn: nat) -> Seq<char> {
    if code == 0x0000 {
        "CLEAR"@
    } else if code == 0x1000 {
        "JUMP TO "@ + decimal(nnn)
    } else if code == 0x6000 {
        "V"@ + decimal(x) + " := "@ + decimal(nnn)
    } else if code == 0x7000 {
        "V"@ + decimal(x) + " := V"@ + decimal(x) + " + "@ + decimal(nn)
    } else if code == 0x0800 {
        if n == 0 {
            "V"@ + decimal(x) + " := V"@ + decimal(y)
        } else if n == 1 {
            "V"@ + decimal(x) + " := V"@ + decimal(x) + " OR V"@ + decimal(y)
        } else if n == 2 {
            "V"@ + decimal(x) + " := V"@ + decimal(x) + " AND V"@ + decimal(y)
        } else if n == 3 {
            "V"@ + decimal(x) + " := V"@ + decimal(x) + " XOR V"@ + decimal(y)
        } else if n == 4 {
            "V"@ + decimal(x) + " := V"@ + decimal(x) + " + V"@ + decimal(y)
        } else {
            Seq::empty()
        }
    } else if code == 0xA000 {
        "I := "@ + decimal(nnn)
    } else if code == 0xD000 {
        "DRAW [V"@ + decimal(x) + ",V"@ + decimal(y) + "] <- "@ + decimal(n)
    } else {
        Seq::empty()
    }
}

/// Describes an instruction in one line, from its decoded fields.
pub fn debug_instr(code: u16, x: usize, y: usize, n: u16, nn: u16, nnn: u16) -> (r: String)
    ensures
        r@ == instr_text(code, x as nat, y as nat, n as nat, nn as nat, nnn as nat),
{
    let mut s = String::new();
    if code == 0x0000 {
        s.append("CLEAR");
    } else if code == 0x1000 {
        s.append("JUMP TO ");
        push_decimal(&mut s, nnn as usize);
    } else if code == 0x6000 {
        s.append("V");
        push_decimal(&mut s, x);
        s.append(" := ");
        push_decimal(&mut s, nnn as usize);
    } else if code == 0x7000 {
        s.append("V");
        push_decimal(&mut s, x);
        s.append(" := V");
        push_decimal(&mut s, x);
        s.append(" + ");
        push_decimal(&mut s, nn as usize);
    } else if code == 0x0800 {
        if n <= 4 {
            s.append("V");
            push_decimal(&mut s, x);
            s.append(" := V");
            if n == 0 {
                push_decimal(&mut s, y);
            } else {
                push_decimal(&mut s, x);
                if n == 1 {
                    s.append(" OR V");
                } else if n == 2 {
                    s.append(" AND V");
                } else if n == 3 {
                    s.append(" XOR V");
                } else {
                    s.append(" + V");
                }
                push_decimal(&mut s, y);
            }
        }
    } else if code == 0xA000 {
        s.append("I := ");
        push_decimal(&mut s, nnn as usize);
    } else if code == 0xD000 {
        s.append("DRAW [V");
        push_decimal(&mut s, x);
        s.append(",V");
        push_decimal(&mut s, y);
        s.append("] <- ");
        push_decimal(&mut s, n as usize);
    }
    assert(s@ =~= instr_text(code, x as nat, y as nat, n as nat, nn as nat, nnn as nat));
    s
}

} // verus!
