//! Rendering of tagged scalars.
//!
//! A scalar tagged secret renders as the fixed mask `***`, whatever its
//! payload; a scalar tagged normal renders as its payload's natural text.
//! Numbers render in decimal, booleans as `true`/`false`, version-4
//! addresses dotted, version-6 addresses as eight lowercase hex groups.
//! Two payload kinds have no natural text inside the core: floating-point
//! text needs floating-point arithmetic, and objects and lists have no
//! scalar text at all — for those the whole-tree renderer answers only
//! while the mask applies.
use vstd::prelude::*;

use crate::sec::{sec_view, SecValue, SecValueType, SecView};
use crate::value::IpValue;

verus! {

/// The decimal digit character for a value below ten.
pub open spec fn spec_dec_digit(d: int) -> char {
    if d == 0 {
        '0'
    } else if d == 1 {
        '1'
    } else if d == 2 {
        '2'
    } else if d == 3 {
        '3'
    } else if d == 4 {
        '4'
    } else if d == 5 {
        '5'
    } else if d == 6 {
        '6'
    } else if d == 7 {
        '7'
    } else if d == 8 {
        '8'
    } else {
        '9'
    }
}

/// The lowercase hexadecimal digit character for a value below sixteen.
pub open spec fn spec_hex_digit(d: int) -> char {
    if d < 10 {
        spec_dec_digit(d)
    } else if d == 10 {
        'a'
    } else if d == 11 {
        'b'
    } else if d == 12 {
        'c'
    } else if d == 13 {
        'd'
    } else if d == 14 {
        'e'
    } else {
        'f'
    }
}

/// The decimal text of a number: most significant digit first, no leading
/// zeros, a single `0` for zero.
pub open spec fn spec_u64_text(n: int) -> Seq<char>
    decreases n,
{
    if n < 10 {
        seq![spec_dec_digit(n)]
    } else {
        spec_u64_text(n / 10).push(spec_dec_digit(n % 10))
    }
}

/// The lowercase hexadecimal text of a 16-bit group: no leading zeros, a
/// single `0` for zero.
pub open spec fn spec_u16_hex(n: int) -> Seq<char>
    decreases n,
{
    if n < 16 {
        seq![spec_hex_digit(n)]
    } else {
        spec_u16_hex(n / 16).push(spec_hex_digit(n % 16))
    }
}

/// The natural text of a boolean.
pub open spec fn spec_bool_text(b: bool) -> Seq<char> {
    if b {
        "true"@
    } else {
        "false"@
    }
}

/// The natural text of an IP address: dotted decimal octets for version 4,
/// eight colon-separated lowercase hex groups, none compressed, for
/// version 6.
pub open spec fn spec_ip_text(ip: IpValue) -> Seq<char> {
    match ip {
        IpValue::V4(a, b, c, d) => spec_u64_text(a as int) + seq!['.'] + spec_u64_text(b as int)
            + seq!['.'] + spec_u64_text(c as int) + seq!['.'] + spec_u64_text(d as int),
        IpValue::V6(g0, g1, g2, g3, g4, g5, g6, g7) => spec_u16_hex(g0 as int) + seq![':']
            + spec_u16_hex(g1 as int) + seq![':'] + spec_u16_hex(g2 as int) + seq![':']
            + spec_u16_hex(g3 as int) + seq![':'] + spec_u16_hex(g4 as int) + seq![':']
            + spec_u16_hex(g5 as int) + seq![':'] + spec_u16_hex(g6 as int) + seq![':']
            + spec_u16_hex(g7 as int),
    }
}

/// The text a tagged scalar renders as: the fixed mask when secret, the
/// payload's natural text otherwise.
pub open spec fn spec_masked(secret: bool, text: Seq<char>) -> Seq<char> {
    if secret {
        "***"@
    } else {
        text
    }
}

/// One decimal digit as text.
fn dec_digit_str(d: u64) -> (r: &'static str)
    requires
        d < 10,
    ensures
        r@ == seq![spec_dec_digit(d as int)],
{
    proof {
        reveal_strlit("0");
        reveal_strlit("1");
        reveal_strlit("2");
        reveal_strlit("3");
        reveal_strlit("4");
        reveal_strlit("5");
        reveal_strlit("6");
        reveal_strlit("7");
        reveal_strlit("8");
        reveal_strlit("9");
        assert("0"@ =~= seq!['0']);
        assert("1"@ =~= seq!['1']);
        assert("2"@ =~= seq!['2']);
        assert("3"@ =~= seq!['3']);
        assert("4"@ =~= seq!['4']);
        assert("5"@ =~= seq!['5']);
        assert("6"@ =~= seq!['6']);
        assert("7"@ =~= seq!['7']);
        assert("8"@ =~= seq!['8']);
        assert("9"@ =~= seq!['9']);
    }
    if d == 0 {
        "0"
    } else if d == 1 {
        "1"
    } else if d == 2 {
        "2"
    } else if d == 3 {
        "3"
    } else if d == 4 {
        "4"
    } else if d == 5 {
        "5"
    } else if d == 6 {
        "6"
    } else if d == 7 {
        "7"
    } else if d == 8 {
        "8"
    } else {
        "9"
    }
}

/// One lowercase hexadecimal digit as text.
fn hex_digit_str(d: u64) -> (r: &'static str)
    requires
        d < 16,
    ensures
        r@ == seq![spec_hex_digit(d as int)],
{
    if d < 10 {
        dec_digit_str(d)
    } else {
        proof {
            reveal_strlit("a");
            reveal_strlit("b");
            reveal_strlit("c");
            reveal_strlit("d");
            reveal_strlit("e");
            reveal_strlit("f");
            assert("a"@ =~= seq!['a']);
            assert("b"@ =~= seq!['b']);
            assert("c"@ =~= seq!['c']);
            assert("d"@ =~= seq!['d']);
            assert("e"@ =~= seq!['e']);
            assert("f"@ =~= seq!['f']);
        }
        if d == 10 {
            "a"
        } else if d == 11 {
            "b"
        } else if d == 12 {
            "c"
        } else if d == 13 {
            "d"
        } else if d == 14 {
            "e"
        } else {
            "f"
        }
    }
}

/// The decimal text of a number.
pub fn u64_text(n: u64) -> (r: String)
    ensures
        r@ == spec_u64_text(n as int),
    decreases n,
{
    if n < 10 {
        dec_digit_str(n).to_owned()
    } else {
        let mut s = u64_text(n / 10);
        s.append(dec_digit_str(n % 10));
        proof {
            assert(s@ =~= spec_u64_text((n / 10) as int).push(spec_dec_digit((n % 10) as int)));
        }
        s
    }
}

/// The lowercase hexadecimal text of a 16-bit group.
fn u16_hex_text(n: u16) -> (r: String)
    ensures
        r@ == spec_u16_hex(n as int),
    decreases n,
{
    if n < 16 {
        hex_digit_str(n as u64).to_owned()
    } else {
        let mut s = u16_hex_text(n / 16);
        s.append(hex_digit_str((n % 16) as u64));
        proof {
            assert(s@ =~= spec_u16_hex((n / 16) as int).push(spec_hex_digit((n % 16) as int)));
        }
        s
    }
}

/// The natural text of an IP address.
fn ip_text(ip: IpValue) -> (r: String)
    ensures
        r@ == spec_ip_text(ip),
{
    match ip {
        IpValue::V4(a, b, c, d) => {
            let mut s = u64_text(a as u64);
            s.append(".");
            s.append(u64_text(b as u64).as_str());
            s.append(".");
            s.append(u64_text(c as u64).as_str());
            s.append(".");
            s.append(u64_text(d as u64).as_str());
            proof {
                reveal_strlit(".");
                assert("."@ =~= seq!['.']);
                assert(s@ =~= spec_ip_text(ip));
            }
            s
        },
        IpValue::V6(g0, g1, g2, g3, g4, g5, g6, g7) => {
            let mut s = u16_hex_text(g0);
            s.append(":");
            s.append(u16_hex_text(g1).as_str());
            s.append(":");
            s.append(u16_hex_text(g2).as_str());
            s.append(":");
            s.append(u16_hex_text(g3).as_str());
            s.append(":");
            s.append(u16_hex_text(g4).as_str());
            s.append(":");
            s.append(u16_hex_text(g5).as_str());
            s.append(":");
            s.append(u16_hex_text(g6).as_str());
            s.append(":");
            s.append(u16_hex_text(g7).as_str());
            proof {
                reveal_strlit(":");
                assert(":"@ =~= seq![':']);
                assert(s@ =~= spec_ip_text(ip));
            }
            s
        },
    }
}

/// A payload kind with a natural text form.
pub trait NaturalText: Sized {
    /// The payload's natural text.
    spec fn text_spec(&self) -> Seq<char>;

    /// The natural text, as specified by `text_spec`.
    fn text(&self) -> (r: String)
        ensures
            r@ == self.text_spec(),
    ;
}

impl NaturalText for String {
    open spec fn text_spec(&self) -> Seq<char> {
        self@
    }

    fn text(&self) -> (r: String) {
        self.clone()
    }
}

impl NaturalText for bool {
    open spec fn text_spec(&self) -> Seq<char> {
        spec_bool_text(*self)
    }

    fn text(&self) -> (r: String) {
        if *self {
            "true".to_owned()
        } else {
            "false".to_owned()
        }
    }
}

impl NaturalText for u64 {
    open spec fn text_spec(&self) -> Seq<char> {
        spec_u64_text(*self as int)
    }

    fn text(&self) -> (r: String) {
        u64_text(*self)
    }
}

impl NaturalText for IpValue {
    open spec fn text_spec(&self) -> Seq<char> {
        spec_ip_text(*self)
    }

    fn text(&self) -> (r: String) {
        ip_text(*self)
    }
}

impl<T: NaturalText> SecValue<T> {
    /// The text this scalar renders as: exactly the mask when secret —
    /// nothing of the payload shows — and exactly the payload's natural
    /// text when normal.
    pub fn display_text(&self) -> (r: String)
        ensures
            r@ == spec_masked(self.is_secret, self.value.text_spec()),
    {
        if self.is_secret {
            "***".to_owned()
        } else {
            self.value.text()
        }
    }
}

/// What a tree node renders as, when the core can render it: scalars have
/// text — masked when secret — but a normal floating-point scalar needs
/// floating-point formatting, which stays outside the core, and objects
/// and lists have no scalar text at all.
pub open spec fn spec_display(t: SecView) -> Option<Seq<char>> {
    match t {
        SecView::String(v) => Some(spec_masked(v.is_secret, v.value)),
        SecView::Bool(v) => Some(spec_masked(v.is_secret, spec_bool_text(v.value))),
        SecView::Number(v) => Some(spec_masked(v.is_secret, spec_u64_text(v.value as int))),
        SecView::Float(v) => if v.is_secret {
            Some("***"@)
        } else {
            None
        },
        SecView::Ip(v) => Some(spec_masked(v.is_secret, spec_ip_text(v.value))),
        SecView::Obj(_) => None,
        SecView::List(_) => None,
    }
}

impl SecValueType {
    /// The text this node renders as, where the core defines one: every
    /// secret scalar renders as the mask, every normal scalar but a
    /// floating-point one as its payload's natural text.
    pub fn display_text(&self) -> (r: Option<String>)
        ensures
            match r {
                Some(s) => spec_display(sec_view(*self)) == Some(s@),
                None => spec_display(sec_view(*self)) is None,
            },
    {
        match self {
            SecValueType::String(v) => Some(v.display_text()),
            SecValueType::Bool(v) => Some(v.display_text()),
            SecValueType::Number(v) => Some(v.display_text()),
            SecValueType::Float(v) => {
                if v.is_secret {
                    Some("***".to_owned())
                } else {
                    None
                }
            },
            SecValueType::Ip(v) => Some(v.display_text()),
            SecValueType::Obj(_) => None,
            SecValueType::List(_) => None,
        }
    }
}

} // verus!
