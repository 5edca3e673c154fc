//! Customer lookup demonstrations over a pair of enumerations: a bare
//! gender tag, and one that carries extra fields on each variant.

use vstd::prelude::*;
use vstd::arithmetic::div_mod::{lemma_fundamental_div_mod, lemma_mod_multiples_basic};

verus! {

/// A customer's gender.
pub enum Gender {
    Male,
    Female,
}

/// A customer's gender with variant-specific details attached.
pub enum GenderAddInfo {
    Male { name: String, is_military: bool },
    Female { name: String },
}

/// A number and its negation are even together.
proof fn lemma_neg_even(n: int)
    ensures
        (n % 2 == 0) == ((-n) % 2 == 0),
{
    if n % 2 == 0 {
        lemma_fundamental_div_mod(n, 2);
        assert(-n == (-(n / 2)) * 2) by (nonlinear_arith)
            requires
                n == 2 * (n / 2),
        ;
        lemma_mod_multiples_basic(-(n / 2), 2);
    } else if (-n) % 2 == 0 {
        lemma_fundamental_div_mod(-n, 2);
        assert(n == (-((-n) / 2)) * 2) by (nonlinear_arith)
            requires
                -n == 2 * ((-n) / 2),
        ;
        lemma_mod_multiples_basic(-((-n) / 2), 2);
    }
}

/// The customer with an even id is a man, with an odd id a woman.
pub fn get_customer(id: i32) -> (r: Gender)
    ensures
        (r is Male) == (id as int % 2 == 0),
{
    proof {
        lemma_neg_even(id as int);
    }
    if id % 2 == 0 {
        return Gender::Male;
    }
    return Gender::Female;
}

/// The customer with details: even ids name a serving man, odd ids a
/// woman.
pub fn get_add_info_customer(id: i32) -> (r: GenderAddInfo)
    ensures
        id as int % 2 == 0 ==> (r matches GenderAddInfo::Male { name, is_military } && name@
            == "Jaff"@ && is_military),
        id as int % 2 != 0 ==> (r matches GenderAddInfo::Female { name } && name@ == "Alice"@),
{
    proof {
        lemma_neg_even(id as int);
    }
    if id % 2 == 0 {
        return GenderAddInfo::Male { name: "Jaff".to_owned(), is_military: true };
    }
    return GenderAddInfo::Female { name: "Alice".to_owned() };
}

} // verus!
