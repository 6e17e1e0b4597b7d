//! The record types that playback skips as non-vector, kept distinct and in
//! ascending order, and the warning that lists them.

use vstd::prelude::*;
use crate::text_util::push_char;

verus! {

broadcast use vstd::string::group_string_axioms;

/// The decimal digit `d` (below ten).
pub open spec fn digit_char(d: nat) -> char {
    if d == 0 {
        '0'
    } else if d == 1 {
        '1'
    } else if d == 2 {
        '2'
    } else if d == 3 {
        '3'
    } else if d == 4 {
        '4'
    } else if d == 5 {
        '5'
    } else if d == 6 {
        '6'
    } else if d == 7 {
        '7'
    } else if d == 8 {
        '8'
    } else {
        '9'
    }
}

/// `n` written in decimal, without leading zeros.
pub open spec fn decimal(n: nat) -> Seq<char>
    decreases n,
{
    if n < 10 {
        seq![digit_char(n)]
    } else {
        decimal(n / 10).push(digit_char(n % 10))
    }
}

fn digit(d: u64) -> (c: char)
    requires
        d < 10,
    ensures
        c == digit_char(d as nat),
{
    if d == 0 {
        '0'
    } else if d == 1 {
        '1'
    } else if d == 2 {
        '2'
    } else if d == 3 {
        '3'
    } else if d == 4 {
        '4'
    } else if d == 5 {
        '5'
    } else if d == 6 {
        '6'
    } else if d == 7 {
        '7'
    } else if d == 8 {
        '8'
    } else {
        '9'
    }
}

/// Append `n` in decimal to `out`.
pub fn push_decimal(out: &mut String, n: u64)
    ensures
        final(out)@ == old(out)@ + decimal(n as nat),
    decreases n,
{
    if n >= 10 {
        push_decimal(out, n / 10);
    }
    push_char(out, digit(n % 10));
    proof {
        if n >= 10 {
            assert(old(out)@ + decimal(n as nat) =~= old(out)@ + decimal((n / 10) as nat) + seq![
                digit_char((n % 10) as nat),
            ]);
        } else {
            assert(n % 10 == n);
        }
    }
}

/// Append the characters of `s`.
fn push_text(out: &mut String, s: &str)
    ensures
        final(out)@ == old(out)@ + s@,
{
    let cs = crate::text_util::chars_of(s);
    crate::text_util::push_chars(out, cs.as_slice());
}

/// `ts` in decimal, separated by `", "`.
pub open spec fn joined(ts: Seq<u32>) -> Seq<char>
    decreases ts.len(),
{
    if ts.len() == 0 {
        seq![]
    } else if ts.len() == 1 {
        decimal(ts[0] as nat)
    } else {
        joined(ts.drop_last()) + seq![',', ' '] + decimal(ts.last() as nat)
    }
}

/// The warning for the skipped types `ts`.
pub open spec fn warning_text(ts: Seq<u32>) -> Seq<char> {
    "skipped "@ + decimal(ts.len()) + " non-vector record type(s) (iType: "@ + joined(ts) + ")"@
}

/// Whether `ts` is strictly ascending.
pub open spec fn ascending(ts: Seq<u32>) -> bool {
    forall|i: int, j: int| 0 <= i < j < ts.len() ==> ts[i] < ts[j]
}

/// A set of record types, listed in ascending order.
pub struct SkippedTypes {
    types: Vec<u32>,
}

impl View for SkippedTypes {
    type V = Seq<u32>;

    closed spec fn view(&self) -> Seq<u32> {
        self.types@
    }
}

impl SkippedTypes {
    #[verifier::type_invariant]
    spec fn inv(&self) -> bool {
        ascending(self.types@)
    }

    pub fn new() -> (s: Self)
        ensures
            s@ == Seq::<u32>::empty(),
    {
        SkippedTypes { types: Vec::new() }
    }

    pub fn len(&self) -> (n: usize)
        ensures
            n == self@.len(),
            ascending(self@),
    {
        proof {
            use_type_invariant(self);
        }
        self.types.len()
    }

    pub fn is_empty(&self) -> (b: bool)
        ensures
            b == (self@.len() == 0),
    {
        self.types.len() == 0
    }

    /// Add a type: the set gains it, and stays in ascending order.
    pub fn insert(&mut self, t: u32)
        ensures
            final(self)@.to_set() == old(self)@.to_set().insert(t),
            ascending(final(self)@),
    {
        proof {
            use_type_invariant(&*self);
        }
        let n = self.types.len();
        let mut i: usize = 0;
        while i < n && self.types[i] < t
            invariant
                n == self.types@.len(),
                i <= n,
                ascending(self.types@),
                forall|k: int| 0 <= k < i ==> self.types@[k] < t,
            decreases n - i,
        {
            i = i + 1;
        }
        if i < n && self.types[i] == t {
            return;
        }
        let ghost before = self.types@;
        let mut types: Vec<u32> = Vec::new();
        std::mem::swap(&mut types, &mut self.types);
        types.insert(i, t);
        proof {
            assert forall|a: int, b: int| 0 <= a < b < types@.len() implies types@[a] < types@[b] by {
                if b < i {
                    assert(types@[a] == before[a] && types@[b] == before[b]);
                } else if b == i {
                    assert(types@[a] == before[a]);
                } else if a < i {
                    assert(types@[a] == before[a] && types@[b] == before[b - 1]);
                    if i < n {
                        assert(before[i as int] >= t);
                        assert(before[i as int] != t);
                    }
                } else if a == i {
                    assert(types@[b] == before[b - 1]);
                    assert(before[i as int] > t);
                } else {
                    assert(types@[a] == before[a - 1] && types@[b] == before[b - 1]);
                }
            }
            assert forall|x: u32| #[trigger] types@.contains(x) <==> before.contains(x) || x == t by {
                if types@.contains(x) {
                    let k = choose|k: int| 0 <= k < types@.len() && types@[k] == x;
                    if k < i {
                        assert(before[k] == x);
                    } else if k > i {
                        assert(before[k - 1] == x);
                    }
                }
                if before.contains(x) {
                    let k = choose|k: int| 0 <= k < before.len() && before[k] == x;
                    if k < i {
                        assert(types@[k] == x);
                    } else {
                        assert(types@[k + 1] == x);
                    }
                }
                if x == t {
                    assert(types@[i as int] == t);
                }
            }
            assert(types@.to_set() =~= before.to_set().insert(t));
        }
        self.types = types;
    }

    /// The playback warning for the skipped types: `None` when there are
    /// none, else their count and their list.
    pub fn warning(&self) -> (r: Option<String>)
        ensures
            match r {
                None => self@.len() == 0,
                Some(s) => self@.len() > 0 && s@ == warning_text(self@),
            },
    {
        let n = self.types.len();
        if n == 0 {
            return None;
        }
        let mut out = String::new();
        push_text(&mut out, "skipped ");
        push_decimal(&mut out, n as u64);
        push_text(&mut out, " non-vector record type(s) (iType: ");
        let ghost head = out@;
        let mut i: usize = 0;
        while i < n
            invariant
                n == self.types@.len(),
                n > 0,
                i <= n,
                out@ == head + joined(self.types@.subrange(0, i as int)),
            decreases n - i,
        {
            let ghost pre = self.types@.subrange(0, i as int);
            if i > 0 {
                push_text(&mut out, ", ");
            }
            push_decimal(&mut out, self.types[i] as u64);
            proof {
                let now = self.types@.subrange(0, i + 1);
                assert(now.drop_last() =~= pre);
                reveal_strlit(", ");
                if i == 0 {
                    assert(pre =~= Seq::<u32>::empty());
                    assert(out@ =~= head + joined(now));
                } else {
                    assert(out@ =~= head + joined(now));
                }
            }
            i = i + 1;
        }
        push_text(&mut out, ")");
        proof {
            assert(self.types@.subrange(0, n as int) =~= self.types@);
        }
        Some(out)
    }
}

} // verus!
