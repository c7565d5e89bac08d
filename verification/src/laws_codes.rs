//! Properties of the escape sequences themselves.

use vstd::prelude::*;
use crate::ansi_constants::{decimal, digit_char, join_params, sgr};
use crate::escapes::{lemma_decimal_digits, lemma_join_params_chars};
use crate::parse::tag::digits_value;

verus! {

/// A decimal representation reads back as its number.
pub proof fn lemma_decimal_reads_back(n: nat)
    ensures
        digits_value(decimal(n)) == n,
        decimal(n).len() >= 1,
    decreases n,
{
    if n < 10 {
        assert(decimal(n).drop_last() =~= Seq::<char>::empty());
        assert(digit_char(n) as int == 48 + n);
        assert(decimal(n).last() == digit_char(n));
        assert(digits_value(Seq::<char>::empty()) == 0);
    } else {
        lemma_decimal_reads_back(n / 10);
        let d = decimal(n);
        assert(d.drop_last() =~= decimal(n / 10));
        assert(digit_char(n % 10) as int == 48 + n % 10);
        assert(d.last() == digit_char(n % 10));
        assert(digits_value(d) == digits_value(decimal(n / 10)) * 10 + (n % 10));
        assert((n / 10) * 10 + n % 10 == n);
    }
}

proof fn lemma_decimal_injective(n: nat, m: nat)
    requires
        decimal(n) == decimal(m),
    ensures
        n == m,
{
    lemma_decimal_reads_back(n);
    lemma_decimal_reads_back(m);
}

proof fn lemma_join_params_shape(p: Seq<u8>)
    ensures
        p.len() == 0 <==> join_params(p).len() == 0,
        (exists|i: int| 0 <= i < join_params(p).len() && join_params(p)[i] == ';') <==> p.len() >= 2,
{
    lemma_join_params_chars(p);
    if p.len() == 1 {
        lemma_decimal_reads_back(p[0] as nat);
        lemma_decimal_digits(p[0] as nat);
    } else if p.len() >= 2 {
        lemma_decimal_reads_back(p.last() as nat);
        let a = join_params(p.drop_last());
        assert(join_params(p)[a.len() as int] == ';');
    }
}

/// The decimal numbers joined by `;` read back as the numbers: different parameters never give
/// the same text.
proof fn lemma_join_params_injective(p: Seq<u8>, q: Seq<u8>)
    requires
        join_params(p) == join_params(q),
    ensures
        p == q,
    decreases p.len(),
{
    lemma_join_params_shape(p);
    lemma_join_params_shape(q);
    if p.len() == 0 {
        assert(p =~= q);
    } else if p.len() == 1 {
        if q.len() >= 2 {
            let x = join_params(q);
            let i = choose|i: int| 0 <= i < x.len() && x[i] == ';';
            assert(false);
        }
        lemma_decimal_injective(p[0] as nat, q[0] as nat);
        assert(p =~= q);
    } else {
        if q.len() == 1 {
            let x = join_params(p);
            let i = choose|i: int| 0 <= i < x.len() && x[i] == ';';
            assert(false);
        }
        let x = join_params(p);
        let a1 = join_params(p.drop_last());
        let a2 = join_params(q.drop_last());
        let d1 = decimal(p.last() as nat);
        let d2 = decimal(q.last() as nat);
        lemma_decimal_digits(p.last() as nat);
        lemma_decimal_digits(q.last() as nat);
        assert(x == a1 + seq![';'] + d1);
        assert(x == a2 + seq![';'] + d2);
        if d1.len() < d2.len() {
            let i = x.len() - d1.len() - 1;
            assert(x[i] == ';');
            assert(x[i] == d2[i - (x.len() - d2.len())]);
            assert(false);
        }
        if d2.len() < d1.len() {
            let i = x.len() - d2.len() - 1;
            assert(x[i] == ';');
            assert(x[i] == d1[i - (x.len() - d1.len())]);
            assert(false);
        }
        assert(d1 =~= x.subrange(x.len() - d1.len(), x.len() as int));
        assert(d2 =~= x.subrange(x.len() - d2.len(), x.len() as int));
        assert(a1 =~= x.subrange(0, a1.len() as int));
        assert(a2 =~= x.subrange(0, a2.len() as int));
        lemma_decimal_injective(p.last() as nat, q.last() as nat);
        lemma_join_params_injective(p.drop_last(), q.drop_last());
        assert(p =~= p.drop_last().push(p.last()));
        assert(q =~= q.drop_last().push(q.last()));
    }
}

/// An SGR sequence can be read back: two sequences are the same only for the same parameters.
pub proof fn law_sgr_reads_back(p: Seq<u8>, q: Seq<u8>)
    ensures
        sgr(p) == sgr(q) <==> p == q,
{
    if sgr(p) == sgr(q) {
        let x = sgr(p);
        assert(join_params(p) =~= x.subrange(2, x.len() - 1));
        assert(join_params(q) =~= x.subrange(2, x.len() - 1));
        lemma_join_params_injective(p, q);
    }
}

} // verus!
