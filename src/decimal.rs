use vstd::prelude::*;

verus! {

pub open spec fn all_digits(s: Seq<char>) -> bool {
    forall|i: int| 0 <= i < s.len() ==> '0' <= #[trigger] s[i] <= '9'
}

/// The value of a string of decimal digits.
pub open spec fn decimal(s: Seq<char>) -> nat
    decreases s.len(),
{
    if s.len() == 0 {
        0
    } else {
        decimal(s.drop_last()) * 10 + (s.last() as nat - '0' as nat) as nat
    }
}

/// `s` is a nonempty string of decimal digits whose value is at most `max`.
pub open spec fn decimal_within(s: Seq<char>, max: nat) -> bool {
    s.len() > 0 && all_digits(s) && decimal(s) <= max
}

/// The value of a nonempty string of decimal digits, if it is at most `max`.
pub fn parse_decimal(s: &Vec<char>, max: u64) -> (r: Option<u64>)
    ensures
        r is Some == decimal_within(s@, max as nat),
        r matches Some(v) ==> v == decimal(s@),
{
    if s.len() == 0 {
        return None;
    }
    let mut v: u128 = 0;
    let mut over = false;
    let mut i: usize = 0;
    while i < s.len()
        invariant
            i <= s@.len(),
            all_digits(s@.subrange(0, i as int)),
            !over ==> v == decimal(s@.subrange(0, i as int)) && v <= max,
            over ==> decimal(s@.subrange(0, i as int)) > max,
        decreases s@.len() - i,
    {
        let c = s[i];
        if c < '0' || c > '9' {
            proof {
                assert(s@[i as int] == c);
            }
            return None;
        }
        let d = (c as u32 - '0' as u32) as u128;
        proof {
            let pre = s@.subrange(0, i as int);
            let next = s@.subrange(0, i as int + 1);
            assert(next.drop_last() =~= pre);
            assert(next.last() == c);
            assert forall|j: int| 0 <= j < next.len() implies '0' <= #[trigger] next[j] <= '9' by {
                if j < i {
                    assert(next[j] == pre[j]);
                }
            }
        }
        if !over {
            if v * 10 + d > max as u128 {
                over = true;
            } else {
                v = v * 10 + d;
            }
        }
        i = i + 1;
    }
    proof {
        assert(s@.subrange(0, s@.len() as int) =~= s@);
    }
    if over {
        None
    } else {
        Some(v as u64)
    }
}

} // verus!
