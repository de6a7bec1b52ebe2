//! The receiving-address path template and the decimal text of an index.
use vstd::prelude::*;

verus! {

/// The character of a decimal digit `d < 10`.
pub open spec fn digit_char(d: nat) -> char {
    seq!['0', '1', '2', '3', '4', '5', '6', '7', '8', '9'][d as int]
}

/// The decimal representation of `n`, most significant digit first, no leading zeros.
pub open spec fn decimal_of(n: nat) -> Seq<char>
    decreases n,
{
    if n < 10 {
        seq![digit_char(n)]
    } else {
        decimal_of(n / 10).push(digit_char(n % 10))
    }
}

/// The fixed prefix of every receiving-address path.
pub open spec fn template_prefix() -> Seq<char> {
    seq!['m', '/', '8', '4', '\'', '/', '0', '\'', '/', '0', '\'', '/', '0', '/']
}

/// The receiving-address path of index `i`: `m/84'/0'/0'/0/{i}`.
pub open spec fn template_path(i: nat) -> Seq<char> {
    template_prefix() + decimal_of(i)
}

/// Relies on `u128`'s `ToString`: the decimal digits, without sign or leading zeros.
#[verifier::external_body]
fn u128_decimal(n: u128) -> (r: String)
    ensures
        r@ == decimal_of(n as nat),
{
    n.to_string()
}

/// The path of the receiving address with the given index.
pub fn address_path(index: u128) -> (r: String)
    ensures
        r@ == template_path(index as nat),
{
    let prefix: &str = "m/84'/0'/0'/0/";
    let mut s = prefix.to_owned();
    let digits = u128_decimal(index);
    s.append(digits.as_str());
    proof {
        reveal_strlit("m/84'/0'/0'/0/");
        assert(s@ =~= template_path(index as nat));
    }
    s
}

proof fn lemma_digit_injective(x: nat, y: nat)
    requires
        x < 10,
        y < 10,
        digit_char(x) == digit_char(y),
    ensures
        x == y,
{
    let ds = seq!['0', '1', '2', '3', '4', '5', '6', '7', '8', '9'];
    assert(ds[0] == '0' && ds[1] == '1' && ds[2] == '2' && ds[3] == '3' && ds[4] == '4');
    assert(ds[5] == '5' && ds[6] == '6' && ds[7] == '7' && ds[8] == '8' && ds[9] == '9');
}

proof fn lemma_decimal_nonempty(n: nat)
    ensures
        decimal_of(n).len() >= 1,
    decreases n,
{
    if n >= 10 {
        lemma_decimal_nonempty(n / 10);
    }
}

/// Different numbers have different decimal representations.
pub proof fn lemma_decimal_injective(a: nat, b: nat)
    requires
        decimal_of(a) == decimal_of(b),
    ensures
        a == b,
    decreases a,
{
    if a < 10 && b < 10 {
        assert(decimal_of(a)[0] == digit_char(a));
        assert(decimal_of(b)[0] == digit_char(b));
        lemma_digit_injective(a, b);
    } else if a >= 10 && b >= 10 {
        let da = decimal_of(a);
        let db = decimal_of(b);
        assert(da.drop_last() =~= decimal_of(a / 10));
        assert(db.drop_last() =~= decimal_of(b / 10));
        lemma_decimal_injective(a / 10, b / 10);
        assert(da.last() == digit_char(a % 10));
        assert(db.last() == digit_char(b % 10));
        lemma_digit_injective(a % 10, b % 10);
    } else if a < 10 {
        lemma_decimal_nonempty(b / 10);
        assert(decimal_of(b).len() >= 2);
    } else {
        lemma_decimal_nonempty(a / 10);
        assert(decimal_of(a).len() >= 2);
    }
}

/// Distinct indices give distinct receiving-address paths.
pub proof fn lemma_template_paths_distinct(i: nat, j: nat)
    requires
        i != j,
    ensures
        template_path(i) != template_path(j),
{
    if template_path(i) == template_path(j) {
        let p = template_prefix();
        assert(decimal_of(i) =~= template_path(i).skip(p.len() as int));
        assert(decimal_of(j) =~= template_path(j).skip(p.len() as int));
        lemma_decimal_injective(i, j);
    }
}

} // verus!
