use core::marker::PhantomData;
use vstd::prelude::*;
use vstd::std_specs::cmp::PartialEqSpecImpl;

verus! {

/// A handle to an entry of a sparse storage: the slot it lives in and the
/// generation of that slot when the handle was made. The type parameter only
/// tags the kind of entry the handle refers to.
#[derive(Debug)]
pub struct Id<T> {
    pub sparse: u16,
    pub version: u16,
    pub target: PhantomData<T>,
}

impl<T> Id<T> {
    /// Makes the handle for `sparse` at generation `version`.
    pub fn new(sparse: u16, version: u16) -> (r: Self)
        ensures
            r.sparse == sparse,
            r.version == version,
    {
        Id { sparse, version, target: PhantomData }
    }

    /// Two handles name the same entry when slot and generation agree.
    pub open spec fn same(self, other: Self) -> bool {
        self.sparse == other.sparse && self.version == other.version
    }
}

/// The decimal digits of `n`, most significant first, without leading zeros;
/// zero is written `0`.
pub open spec fn decimal(n: nat) -> Seq<char>
    decreases n,
{
    if n < 10 {
        seq![digit_char(n)]
    } else {
        decimal(n / 10) + seq![digit_char(n % 10)]
    }
}

/// The character of a decimal digit.
pub open spec fn digit_char(d: nat) -> char {
    if d == 0 {
        '0'
    } else if d == 1 {
        '1'
    } else if d == 2 {
        '2'
    } else if d == 3 {
        '3'
    } else if d == 4 {
        '4'
    } else if d == 5 {
        '5'
    } else if d == 6 {
        '6'
    } else if d == 7 {
        '7'
    } else if d == 8 {
        '8'
    } else {
        '9'
    }
}

/// The one-character string of a decimal digit.
fn digit_str(d: u16) -> (r: &'static str)
    requires
        d < 10,
    ensures
        r@ == seq![digit_char(d as nat)],
{
    proof {
        reveal_strlit("0");
        reveal_strlit("1");
        reveal_strlit("2");
        reveal_strlit("3");
        reveal_strlit("4");
        reveal_strlit("5");
        reveal_strlit("6");
        reveal_strlit("7");
        reveal_strlit("8");
        reveal_strlit("9");
    }
    if d == 0 {
        "0"
    } else if d == 1 {
        "1"
    } else if d == 2 {
        "2"
    } else if d == 3 {
        "3"
    } else if d == 4 {
        "4"
    } else if d == 5 {
        "5"
    } else if d == 6 {
        "6"
    } else if d == 7 {
        "7"
    } else if d == 8 {
        "8"
    } else {
        "9"
    }
}

/// Appends the decimal digits of `n`.
fn push_decimal(s: &mut String, n: u16)
    ensures
        final(s)@ == old(s)@ + decimal(n as nat),
    decreases n,
{
    if n < 10 {
        s.append(digit_str(n));
    } else {
        push_decimal(s, n / 10);
        s.append(digit_str(n % 10));
        assert(final(s)@ =~= old(s)@ + decimal(n as nat));
    }
}

impl<T> Id<T> {
    /// The handle as text: slot and generation in parentheses, as `(3, 1)`.
    pub fn display_string(&self) -> (r: String)
        ensures
            r@ == seq!['('] + decimal(self.sparse as nat) + seq![',', ' '] + decimal(
                self.version as nat,
            ) + seq![')'],
    {
        proof {
            reveal_strlit("(");
            reveal_strlit(", ");
            reveal_strlit(")");
        }
        let mut s = String::new();
        s.append("(");
        push_decimal(&mut s, self.sparse);
        s.append(", ");
        push_decimal(&mut s, self.version);
        s.append(")");
        assert(s@ =~= seq!['('] + decimal(self.sparse as nat) + seq![',', ' '] + decimal(
            self.version as nat,
        ) + seq![')']);
        s
    }
}

impl<T> Clone for Id<T> {
    fn clone(&self) -> (r: Self)
        ensures
            r.sparse == self.sparse,
            r.version == self.version,
    {
        Id { sparse: self.sparse, version: self.version, target: PhantomData }
    }
}

impl<T> Copy for Id<T> {

}

impl<T> PartialEq for Id<T> {
    fn eq(&self, other: &Self) -> (r: bool) {
        self.sparse == other.sparse && self.version == other.version
    }
}

impl<T> PartialEqSpecImpl for Id<T> {
    open spec fn obeys_eq_spec() -> bool {
        true
    }

    open spec fn eq_spec(&self, other: &Self) -> bool {
        self.sparse == other.sparse && self.version == other.version
    }
}

impl<T> Eq for Id<T> {

}

} // verus!
