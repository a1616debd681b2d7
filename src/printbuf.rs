//! A growable text buffer that rendering appends to.
use vstd::prelude::*;
use crate::bpos::{bpos_text, bpos_to_text, Bpos};
use crate::text::{dec, push_dec, push_str};

verus! {

/// The character of the hexadecimal digit `d`, lower case.
pub open spec fn hex_char(d: nat) -> char {
    if d < 10 {
        (d + 48) as char
    } else {
        (d + 87) as char
    }
}

/// Two hexadecimal digits for each byte, high digit first.
pub open spec fn hex(b: Seq<u8>) -> Seq<char>
    decreases b.len(),
{
    if b.len() == 0 {
        Seq::<char>::empty()
    } else {
        hex(b.drop_last()) + seq![hex_char((b.last() / 16) as nat), hex_char((b.last() % 16) as nat)]
    }
}

/// The one-character text of a hexadecimal digit.
fn hex_digit_str(d: u8) -> (r: &'static str)
    requires
        d < 16,
    ensures
        r@ == seq![hex_char(d as nat)],
{
    proof {
        reveal_strlit("0");
        reveal_strlit("1");
        reveal_strlit("2");
        reveal_strlit("3");
        reveal_strlit("4");
        reveal_strlit("5");
        reveal_strlit("6");
        reveal_strlit("7");
        reveal_strlit("8");
        reveal_strlit("9");
        reveal_strlit("a");
        reveal_strlit("b");
        reveal_strlit("c");
        reveal_strlit("d");
        reveal_strlit("e");
        reveal_strlit("f");
    }
    let r = match d {
        0 => "0",
        1 => "1",
        2 => "2",
        3 => "3",
        4 => "4",
        5 => "5",
        6 => "6",
        7 => "7",
        8 => "8",
        9 => "9",
        10 => "a",
        11 => "b",
        12 => "c",
        13 => "d",
        14 => "e",
        _ => "f",
    };
    assert(r@ =~= seq![hex_char(d as nat)]);
    r
}

/// A text buffer that grows as text is appended; the text is taken out at the end.
pub struct Printbuf {
    buf: String,
}

impl View for Printbuf {
    type V = Seq<char>;

    closed spec fn view(&self) -> Seq<char> {
        self.buf@
    }
}

impl Printbuf {
    /// An empty buffer.
    pub fn new() -> (r: Printbuf)
        ensures
            r@ == Seq::<char>::empty(),
    {
        Printbuf { buf: String::new() }
    }

    pub fn push_str(&mut self, s: &str)
        ensures
            final(self)@ == old(self)@ + s@,
    {
        push_str(&mut self.buf, s);
    }

    /// Appends the decimal numeral of `n`.
    pub fn push_u64(&mut self, n: u64)
        ensures
            final(self)@ == old(self)@ + dec(n as nat),
    {
        push_dec(&mut self.buf, n);
    }

    /// Appends the text of a position.
    pub fn push_bpos(&mut self, p: &Bpos)
        ensures
            final(self)@ == old(self)@ + bpos_text(*p),
    {
        let t = bpos_to_text(p);
        push_str(&mut self.buf, t.as_str());
    }

    /// Appends two hexadecimal digits per byte.
    pub fn push_hex(&mut self, b: &[u8])
        ensures
            final(self)@ == old(self)@ + hex(b@),
    {
        let ghost start = self@;
        let mut i: usize = 0;
        while i < b.len()
            invariant
                i <= b@.len(),
                self@ == start + hex(b@.subrange(0, i as int)),
            decreases b@.len() - i,
        {
            let x = b[i];
            self.push_str(hex_digit_str(x / 16));
            self.push_str(hex_digit_str(x % 16));
            proof {
                let s = b@.subrange(0, i + 1);
                assert(s.drop_last() =~= b@.subrange(0, i as int));
                assert(s.last() == x);
            }
            i += 1;
            assert(self@ =~= start + hex(b@.subrange(0, i as int)));
        }
        assert(b@.subrange(0, b@.len() as int) =~= b@);
    }

    /// The text, leaving the buffer behind.
    pub fn into_string(self) -> (r: String)
        ensures
            r@ == self@,
    {
        self.buf
    }
}

} // verus!
