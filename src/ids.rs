//! Index identifiers: the decimal text of an index's position in the store.

use vstd::prelude::*;
use vstd::string::*;

verus! {

/// The character of a decimal digit.
pub open spec fn digit_char(d: nat) -> char {
    if d == 0 { '0' }
    else if d == 1 { '1' }
    else if d == 2 { '2' }
    else if d == 3 { '3' }
    else if d == 4 { '4' }
    else if d == 5 { '5' }
    else if d == 6 { '6' }
    else if d == 7 { '7' }
    else if d == 8 { '8' }
    else { '9' }
}

/// The decimal text of a number, without leading zeros.
pub open spec fn id_text(n: nat) -> Seq<char>
    decreases n,
{
    if n < 10 {
        seq![digit_char(n)]
    } else {
        id_text(n / 10).push(digit_char(n % 10))
    }
}

proof fn lemma_id_text_len(n: nat)
    ensures
        n < 10 ==> id_text(n).len() == 1,
        n >= 10 ==> id_text(n).len() >= 2,
    decreases n,
{
    if n >= 10 {
        lemma_id_text_len(n / 10);
    }
}

/// Two different numbers never share an identifier.
pub proof fn lemma_id_text_injective(a: nat, b: nat)
    requires
        a != b,
    ensures
        id_text(a) != id_text(b),
    decreases a + b,
{
    lemma_id_text_len(a);
    lemma_id_text_len(b);
    if a >= 10 && b >= 10 {
        if a / 10 != b / 10 {
            lemma_id_text_injective(a / 10, b / 10);
            if id_text(a) == id_text(b) {
                let (sa, sb) = (id_text(a), id_text(b));
                assert(id_text(a / 10) =~= sa.drop_last());
                assert(id_text(b / 10) =~= sb.drop_last());
            }
        } else {
            assert(a % 10 != b % 10);
            assert(id_text(a).last() == digit_char(a % 10));
            assert(id_text(b).last() == digit_char(b % 10));
        }
    } else if a < 10 && b < 10 {
        assert(id_text(a)[0] == digit_char(a));
        assert(id_text(b)[0] == digit_char(b));
    }
}

fn digit_str(d: usize) -> (r: &'static str)
    requires
        d < 10,
    ensures
        r@ == seq![digit_char(d as nat)],
{
    proof {
        reveal_strlit("0");
        reveal_strlit("1");
        reveal_strlit("2");
        reveal_strlit("3");
        reveal_strlit("4");
        reveal_strlit("5");
        reveal_strlit("6");
        reveal_strlit("7");
        reveal_strlit("8");
        reveal_strlit("9");
    }
    let r = if d == 0 { "0" }
    else if d == 1 { "1" }
    else if d == 2 { "2" }
    else if d == 3 { "3" }
    else if d == 4 { "4" }
    else if d == 5 { "5" }
    else if d == 6 { "6" }
    else if d == 7 { "7" }
    else if d == 8 { "8" }
    else { "9" };
    assert(r@ =~= seq![digit_char(d as nat)]);
    r
}

/// The identifier of the index at a position.
pub fn format_id(n: usize) -> (r: String)
    ensures
        r@ == id_text(n as nat),
    decreases n,
{
    if n < 10 {
        digit_str(n).to_owned()
    } else {
        let mut s = format_id(n / 10);
        s.append(digit_str(n % 10));
        s
    }
}

/// The position among the first `n` whose identifier is `id`, if any.
pub fn find_id(n: usize, id: &str) -> (r: Option<usize>)
    ensures
        r matches Some(k) ==> k < n && id_text(k as nat) == id@,
        r is None ==> forall|k: nat| k < n ==> id_text(k) != id@,
{
    let wanted = id.to_owned();
    let mut k: usize = 0;
    while k < n
        invariant
            k <= n,
            wanted@ == id@,
            forall|j: nat| j < k ==> id_text(j) != id@,
        decreases n - k,
    {
        let candidate = format_id(k);
        if candidate == wanted {
            return Some(k);
        }
        k = k + 1;
    }
    None
}

} // verus!
