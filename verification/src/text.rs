//! Source-text accumulation with exactly specified contents.
//!
//! Every operation pins the buffer's new contents as a sequence of
//! characters, so that everything the generator emits is a function of its
//! inputs alone.

use vstd::prelude::*;

verus! {

/// The decimal digit character for a value below ten.
pub open spec fn dec_digit(d: nat) -> char {
    if d == 0 {
        '0'
    } else if d == 1 {
        '1'
    } else if d == 2 {
        '2'
    } else if d == 3 {
        '3'
    } else if d == 4 {
        '4'
    } else if d == 5 {
        '5'
    } else if d == 6 {
        '6'
    } else if d == 7 {
        '7'
    } else if d == 8 {
        '8'
    } else {
        '9'
    }
}

/// The decimal rendering of a natural number, most significant digit first.
pub open spec fn dec_str(n: nat) -> Seq<char>
    decreases n,
{
    if n < 10 {
        seq![dec_digit(n)]
    } else {
        dec_str(n / 10) + seq![dec_digit(n % 10)]
    }
}

fn digit_str(d: u64) -> (r: &'static str)
    requires
        d < 10,
    ensures
        r@ == seq![dec_digit(d as nat)],
{
    proof {
        reveal_strlit("0");
        reveal_strlit("1");
        reveal_strlit("2");
        reveal_strlit("3");
        reveal_strlit("4");
        reveal_strlit("5");
        reveal_strlit("6");
        reveal_strlit("7");
        reveal_strlit("8");
        reveal_strlit("9");
    }
    let r: &'static str = if d == 0 {
        "0"
    } else if d == 1 {
        "1"
    } else if d == 2 {
        "2"
    } else if d == 3 {
        "3"
    } else if d == 4 {
        "4"
    } else if d == 5 {
        "5"
    } else if d == 6 {
        "6"
    } else if d == 7 {
        "7"
    } else if d == 8 {
        "8"
    } else {
        "9"
    };
    proof {
        assert(r@ =~= seq![dec_digit(d as nat)]);
    }
    r
}

/// A growing buffer of generated source text.
pub struct Src {
    pub buf: String,
}

impl View for Src {
    type V = Seq<char>;

    open spec fn view(&self) -> Seq<char> {
        self.buf@
    }
}

impl Src {
    /// An empty buffer.
    pub fn new() -> (r: Src)
        ensures
            r@ == Seq::<char>::empty(),
    {
        Src { buf: String::new() }
    }

    /// Appends a string slice.
    pub fn push(&mut self, t: &str)
        ensures
            final(self)@ == old(self)@ + t@,
    {
        self.buf.append(t);
    }

    /// Appends an owned string.
    pub fn push_string(&mut self, t: &String)
        ensures
            final(self)@ == old(self)@ + t@,
    {
        self.buf.append(t.as_str());
    }

    /// Appends the decimal rendering of `n`.
    pub fn push_dec(&mut self, n: u64)
        ensures
            final(self)@ == old(self)@ + dec_str(n as nat),
        decreases n,
    {
        if n >= 10 {
            self.push_dec(n / 10);
        }
        let d: &'static str = digit_str(n % 10);
        self.buf.append(d);
        proof {
            if n < 10 {
                assert(dec_str(n as nat) =~= seq![dec_digit((n % 10) as nat)]);
            }
            assert(self@ =~= old(self)@ + dec_str(n as nat));
        }
    }

    /// Appends the decimal rendering of a signed 32-bit value.
    pub fn push_dec_i32(&mut self, v: i32)
        ensures
            final(self)@ == old(self)@ + dec_int(v as int),
    {
        if v < 0 {
            self.push("-");
            let m: i64 = -(v as i64);
            self.push_dec(m as u64);
        } else {
            self.push_dec(v as u64);
        }
    }

    /// Gives the accumulated text away, leaving the buffer empty.
    pub fn take(&mut self) -> (r: String)
        ensures
            r@ == old(self)@,
            final(self)@ == Seq::<char>::empty(),
    {
        let mut out: String = String::new();
        core::mem::swap(&mut out, &mut self.buf);
        out
    }

    /// The accumulated text.
    pub fn into_string(self) -> (r: String)
        ensures
            r@ == self@,
    {
        self.buf
    }

    /// The length of the accumulated text, in characters.
    pub fn is_empty(&self) -> (r: bool)
        ensures
            r == (self@.len() == 0),
    {
        self.buf.as_str().is_empty()
    }
}

/// The decimal rendering of a signed value.
pub open spec fn dec_int(v: int) -> Seq<char> {
    if v < 0 {
        "-"@ + dec_str((-v) as nat)
    } else {
        dec_str(v as nat)
    }
}

/// Relies on `str`'s `PartialEq` implementation: equality of the two
/// character sequences.
#[verifier::external_body]
pub fn str_eq(a: &str, b: &str) -> (r: bool)
    ensures
        r == (a@ == b@),
{
    a == b
}

/// Builds an owned string from a slice.
pub fn s(t: &str) -> (r: String)
    ensures
        r@ == t@,
{
    String::from_str(t)
}

} // verus!
