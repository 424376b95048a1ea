//! Quote text compared loosely: case and punctuation do not count.
use vstd::prelude::*;

verus! {

/// Bytes that do not count when comparing quotes.
pub open spec fn ignored(b: u8) -> bool {
    b == 34 || b == 46 || b == 44 || b == 63 || b == 45 || b == 33 || b == 38 || b == 58
        || b == 42 || b == 36 || b == 37 || b == 35 || b == 40 || b == 41 || b == 123 || b == 125
        || b == 60 || b == 62 || b == 39 || b == 59 || b == 32 || b == 9 || b == 10 || b == 124
}

/// ASCII lower case of a byte.
pub open spec fn lower(b: u8) -> u8 {
    if 65 <= b && b <= 90 { (b + 32) as u8 } else { b }
}

/// The bytes that count, in lower case.
pub open spec fn simplified(s: Seq<u8>) -> Seq<u8>
    decreases s.len(),
{
    if s.len() == 0 {
        Seq::empty()
    } else if ignored(s.last()) {
        simplified(s.drop_last())
    } else {
        simplified(s.drop_last()).push(lower(s.last()))
    }
}

fn is_ignored(b: u8) -> (r: bool)
    ensures
        r == ignored(b),
{
    b == 34 || b == 46 || b == 44 || b == 63 || b == 45 || b == 33 || b == 38 || b == 58
        || b == 42 || b == 36 || b == 37 || b == 35 || b == 40 || b == 41 || b == 123 || b == 125
        || b == 60 || b == 62 || b == 39 || b == 59 || b == 32 || b == 9 || b == 10 || b == 124
}

fn to_lower(b: u8) -> (r: u8)
    ensures
        r == lower(b),
{
    if 65 <= b && b <= 90 { b + 32 } else { b }
}

/// A string whose equality ignores ASCII case, spaces and punctuation.
#[derive(Debug)]
pub struct CaseInsensitiveString(pub String);

impl CaseInsensitiveString {
    pub open spec fn key(&self) -> Seq<u8> {
        simplified(vstd::utf8::encode_utf8(self.0@))
    }

    /// The bytes that count, in lower case.
    pub fn simplify_bytes(&self) -> (r: Vec<u8>)
        ensures
            r@ == self.key(),
    {
        let b = self.0.as_str().as_bytes();
        let mut r: Vec<u8> = Vec::new();
        let mut i: usize = 0;
        while i < b.len()
            invariant
                b@ == vstd::utf8::encode_utf8(self.0@),
                i <= b@.len(),
                r@ == simplified(b@.subrange(0, i as int)),
            decreases b@.len() - i,
        {
            let c = b[i];
            if !is_ignored(c) {
                r.push(to_lower(c));
            }
            proof {
                assert(b@.subrange(0, i + 1).drop_last() =~= b@.subrange(0, i as int));
            }
            i = i + 1;
        }
        proof {
            assert(b@.subrange(0, i as int) =~= b@);
        }
        r
    }

    /// Whether both hold the same text once case and punctuation are dropped.
    pub fn same_as(&self, other: &CaseInsensitiveString) -> (r: bool)
        ensures
            r == (self.key() == other.key()),
    {
        let a = self.simplify_bytes();
        let b = other.simplify_bytes();
        if a.len() != b.len() {
            return false;
        }
        let mut i: usize = 0;
        while i < a.len()
            invariant
                a@ == self.key(),
                b@ == other.key(),
                a@.len() == b@.len(),
                i <= a@.len(),
                forall|k: int| 0 <= k < i ==> a@[k] == b@[k],
            decreases a@.len() - i,
        {
            if a[i] != b[i] {
                return false;
            }
            i = i + 1;
        }
        proof {
            assert(a@ =~= b@);
        }
        true
    }
}

impl PartialEq for CaseInsensitiveString {
    fn eq(&self, other: &CaseInsensitiveString) -> (r: bool) {
        self.same_as(other)
    }
}

impl vstd::std_specs::cmp::PartialEqSpecImpl for CaseInsensitiveString {
    open spec fn obeys_eq_spec() -> bool {
        true
    }

    open spec fn eq_spec(&self, other: &CaseInsensitiveString) -> bool {
        self.key() == other.key()
    }
}

impl Eq for CaseInsensitiveString {}

} // verus!
