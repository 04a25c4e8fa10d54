//! Decimal rendering of numbers and joined lists, as the messages of this crate print them.

use vstd::prelude::*;

verus! {

/// The decimal digit `d` (for `d < 10`) as text.
pub open spec fn digit_text(d: nat) -> Seq<char> {
    if d == 0 {
        "0"@
    } else if d == 1 {
        "1"@
    } else if d == 2 {
        "2"@
    } else if d == 3 {
        "3"@
    } else if d == 4 {
        "4"@
    } else if d == 5 {
        "5"@
    } else if d == 6 {
        "6"@
    } else if d == 7 {
        "7"@
    } else if d == 8 {
        "8"@
    } else {
        "9"@
    }
}

/// The decimal representation of `n`, without sign or leading zeros.
pub open spec fn decimal(n: nat) -> Seq<char>
    decreases n,
{
    if n < 10 {
        digit_text(n)
    } else {
        decimal(n / 10) + digit_text(n % 10)
    }
}

/// `items` joined by `sep`.
pub open spec fn join(items: Seq<Seq<char>>, sep: Seq<char>) -> Seq<char>
    decreases items.len(),
{
    if items.len() == 0 {
        Seq::empty()
    } else if items.len() == 1 {
        items[0]
    } else {
        join(items.drop_last(), sep) + sep + items.last()
    }
}

/// `#n` for a PR or stack number.
pub open spec fn hash_number(n: u64) -> Seq<char> {
    "#"@ + decimal(n as nat)
}

/// The numbers as `#a{sep}#b{sep}...`.
pub open spec fn hash_list(nums: Seq<u64>, sep: Seq<char>) -> Seq<char> {
    join(nums.map_values(|n: u64| hash_number(n)), sep)
}

/// The numbers as Rust's `Debug` prints a `Vec<u64>`: `[a, b, c]`.
pub open spec fn debug_list(nums: Seq<u64>) -> Seq<char> {
    "["@ + join(nums.map_values(|n: u64| decimal(n as nat)), ", "@) + "]"@
}

fn digit_str(d: u64) -> (s: &'static str)
    requires
        d < 10,
    ensures
        s@ == digit_text(d as nat),
{
    if d == 0 {
        "0"
    } else if d == 1 {
        "1"
    } else if d == 2 {
        "2"
    } else if d == 3 {
        "3"
    } else if d == 4 {
        "4"
    } else if d == 5 {
        "5"
    } else if d == 6 {
        "6"
    } else if d == 7 {
        "7"
    } else if d == 8 {
        "8"
    } else {
        "9"
    }
}

/// Appends the decimal representation of `n` to `s`.
pub fn push_decimal(s: &mut String, n: u64)
    ensures
        final(s)@ == old(s)@ + decimal(n as nat),
    decreases n,
{
    if n < 10 {
        s.append(digit_str(n));
    } else {
        push_decimal(s, n / 10);
        s.append(digit_str(n % 10));
        assert(old(s)@ + decimal((n / 10) as nat) + digit_text((n % 10) as nat) =~= old(s)@ + (
        decimal((n / 10) as nat) + digit_text((n % 10) as nat)));
    }
}

/// The decimal representation of `n`.
pub fn decimal_text(n: u64) -> (s: String)
    ensures
        s@ == decimal(n as nat),
{
    let mut s = String::new();
    push_decimal(&mut s, n);
    assert(s@ =~= decimal(n as nat));
    s
}

/// Appends `#n` to `s`.
pub fn push_hash_number(s: &mut String, n: u64)
    ensures
        final(s)@ == old(s)@ + hash_number(n),
{
    s.append("#");
    push_decimal(s, n);
    assert(final(s)@ =~= old(s)@ + hash_number(n));
}

proof fn lemma_join_push(items: Seq<Seq<char>>, sep: Seq<char>, x: Seq<char>)
    ensures
        join(items.push(x), sep) == if items.len() == 0 {
            x
        } else {
            join(items, sep) + sep + x
        },
{
    assert(items.push(x).drop_last() =~= items);
}

/// The numbers rendered as `#a{sep}#b...`.
pub fn hash_list_text(nums: &Vec<u64>, sep: &str) -> (s: String)
    ensures
        s@ == hash_list(nums@, sep@),
{
    let mut s = String::new();
    let ghost items = nums@.map_values(|n: u64| hash_number(n));
    for i in 0..nums.len()
        invariant
            items == nums@.map_values(|n: u64| hash_number(n)),
            s@ == join(items.take(i as int), sep@),
    {
        proof {
            assert(items.take(i + 1) =~= items.take(i as int).push(items[i as int]));
            lemma_join_push(items.take(i as int), sep@, items[i as int]);
        }
        if i > 0 {
            s.append(sep);
        }
        push_hash_number(&mut s, nums[i]);
        assert(s@ =~= join(items.take(i + 1), sep@));
    }
    assert(items.take(nums.len() as int) =~= items);
    s
}

/// The numbers as Rust's `Debug` prints a `Vec<u64>`.
pub fn debug_list_text(nums: &Vec<u64>) -> (s: String)
    ensures
        s@ == debug_list(nums@),
{
    let mut s = String::new();
    s.append("[");
    let ghost items = nums@.map_values(|n: u64| decimal(n as nat));
    for i in 0..nums.len()
        invariant
            items == nums@.map_values(|n: u64| decimal(n as nat)),
            s@ == "["@ + join(items.take(i as int), ", "@),
    {
        proof {
            assert(items.take(i + 1) =~= items.take(i as int).push(items[i as int]));
            lemma_join_push(items.take(i as int), ", "@, items[i as int]);
        }
        if i > 0 {
            s.append(", ");
        }
        push_decimal(&mut s, nums[i]);
        assert(s@ =~= "["@ + join(items.take(i + 1), ", "@));
    }
    assert(items.take(nums.len() as int) =~= items);
    s.append("]");
    s
}

} // verus!
