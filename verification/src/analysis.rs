//! Outcome enumeration and portfolio statistics.
//!
//! The enumerator walks the Cartesian product of the per-company scenarios
//! in mixed-radix order: outcome number `t` picks, for company `i`, the
//! scenario with index `(t / stride_i) % count_i`, where `stride_i` is the
//! product of the scenario counts of the companies before `i`.  The first
//! company's index therefore changes fastest, like the lowest wheel of an
//! odometer.

use vstd::prelude::*;
use vstd::string::StringExecFns;

use crate::fixed::{
    add_fx, add_fx_spec, mul_fx, mul_fx_spec, SCALE,
};
use crate::model::errors::Error;
use crate::model::portfolio::{Portfolio, PortfolioCompany};
use crate::model::responses::ProbabilityAndReturns;
use crate::model::scenario::{
    probability_weighted_return_spec, scenario_return_spec,
};
use crate::text::uint_string;

verus! {

/// Upper bound on the number of outcomes the enumerator accepts.
pub const MAX_OUTCOMES: u64 = 50000;

/// An outcome: its joint probability, the weighted portfolio return, and
/// the per-company returns in portfolio order.
#[derive(Clone, Debug)]
pub struct Outcome {
    pub weighted_return: i64,
    pub probability: i64,
    pub company_returns: Vec<i64>,
}

/// The number of scenarios of company `i`.
pub open spec fn count_of(cs: Seq<PortfolioCompany>, i: int) -> int {
    cs[i].company.scenarios@.len() as int
}

/// The product of the scenario counts of the first `n` companies.
pub open spec fn product_counts(cs: Seq<PortfolioCompany>, n: int) -> int
    decreases n,
{
    if n <= 0 {
        1
    } else {
        product_counts(cs, n - 1) * count_of(cs, n - 1)
    }
}

/// The number of outcomes of a portfolio: the product of the per-company
/// scenario counts, or zero for an empty portfolio.
pub open spec fn outcome_count(cs: Seq<PortfolioCompany>) -> int {
    if cs.len() == 0 {
        0
    } else {
        product_counts(cs, cs.len() as int)
    }
}

/// The scenario index of company `i` in outcome number `t`.
pub open spec fn digit_at(cs: Seq<PortfolioCompany>, t: int, i: int) -> int {
    (t / product_counts(cs, i)) % count_of(cs, i)
}

/// The return of company `i` in outcome number `t`.
pub open spec fn return_at(cs: Seq<PortfolioCompany>, t: int, i: int) -> int {
    scenario_return_spec(
        cs[i].company.scenarios@[digit_at(cs, t, i)],
        cs[i].company.market_cap as int,
    )
}

/// The joint probability of outcome `t`, accumulated over the first `j`
/// companies.
pub open spec fn outcome_probability_to(cs: Seq<PortfolioCompany>, t: int, j: int) -> int
    decreases j,
{
    if j <= 0 {
        SCALE as int
    } else {
        mul_fx_spec(
            outcome_probability_to(cs, t, j - 1),
            cs[j - 1].company.scenarios@[digit_at(cs, t, j - 1)].probability as int,
        )
    }
}

/// The weighted return of outcome `t`, accumulated over the first `j`
/// companies.
pub open spec fn outcome_weighted_to(cs: Seq<PortfolioCompany>, t: int, j: int) -> int
    decreases j,
{
    if j <= 0 {
        0
    } else {
        add_fx_spec(
            outcome_weighted_to(cs, t, j - 1),
            mul_fx_spec(cs[j - 1].fraction as int, return_at(cs, t, j - 1)),
        )
    }
}

/// `o` is exactly outcome number `t` of the portfolio.
pub open spec fn outcome_matches(cs: Seq<PortfolioCompany>, o: Outcome, t: int) -> bool {
    &&& o.company_returns@.len() == cs.len()
    &&& forall|i: int|
        0 <= i < cs.len() ==> (#[trigger] o.company_returns@[i]) as int == return_at(cs, t, i)
    &&& o.probability as int == outcome_probability_to(cs, t, cs.len() as int)
    &&& o.weighted_return as int == outcome_weighted_to(cs, t, cs.len() as int)
}

/// When every company has at least one scenario, the count products are
/// positive and grow with the number of companies taken in.
proof fn lemma_product_positive(cs: Seq<PortfolioCompany>, n: int)
    requires
        0 <= n <= cs.len(),
        forall|k: int| 0 <= k < n ==> count_of(cs, k) >= 1,
    ensures
        product_counts(cs, n) >= 1,
    decreases n,
{
    if n > 0 {
        lemma_product_positive(cs, n - 1);
        assert(product_counts(cs, n - 1) * count_of(cs, n - 1) >= product_counts(cs, n - 1))
            by (nonlinear_arith)
            requires
                product_counts(cs, n - 1) >= 1,
                count_of(cs, n - 1) >= 1,
        ;
    }
}

/// With no empty scenario list, taking in more companies can only grow the
/// product of counts.
proof fn lemma_product_monotone(cs: Seq<PortfolioCompany>, i: int, n: int)
    requires
        0 <= i <= n <= cs.len(),
        forall|k: int| 0 <= k < n ==> count_of(cs, k) >= 1,
    ensures
        product_counts(cs, n) >= product_counts(cs, i),
    decreases n,
{
    if n > i {
        lemma_product_monotone(cs, i, n - 1);
        lemma_product_positive(cs, n - 1);
        assert(product_counts(cs, n - 1) * count_of(cs, n - 1) >= product_counts(cs, n - 1))
            by (nonlinear_arith)
            requires
                product_counts(cs, n - 1) >= 1,
                count_of(cs, n - 1) >= 1,
        ;
    }
}

/// A company without scenarios forces the product of counts to zero.
proof fn lemma_product_zero(cs: Seq<PortfolioCompany>, k: int, n: int)
    requires
        0 <= k < n <= cs.len(),
        count_of(cs, k) == 0,
    ensures
        product_counts(cs, n) == 0,
    decreases n,
{
    if n - 1 > k {
        lemma_product_zero(cs, k, n - 1);
        assert(product_counts(cs, n) == product_counts(cs, n - 1) * count_of(cs, n - 1));
        assert(0int * count_of(cs, n - 1) == 0) by (nonlinear_arith);
    } else {
        assert(product_counts(cs, n) == product_counts(cs, n - 1) * count_of(cs, k));
        assert(product_counts(cs, n - 1) * 0int == 0) by (nonlinear_arith);
    }
}

/// The saturating fixed-point sum of the probabilities of the first `m`
/// outcomes.
pub open spec fn sum_outcome_probabilities(os: Seq<Outcome>, m: int) -> int
    decreases m,
{
    if m <= 0 {
        0
    } else {
        add_fx_spec(sum_outcome_probabilities(os, m - 1), os[m - 1].probability as int)
    }
}

/// For a portfolio of a single company, the probabilities of the
/// enumerated outcomes sum to exactly the fixed-point sum of the company's
/// scenario probabilities: enumeration conserves probability mass.  When
/// validation has accepted the company, that sum is one within the
/// tolerance.
pub proof fn lemma_single_company_probability_mass(
    cs: Seq<PortfolioCompany>,
    os: Seq<Outcome>,
    m: int,
)
    requires
        cs.len() == 1,
        0 <= m <= os.len(),
        os.len() == outcome_count(cs),
        forall|t: int| 0 <= t < os.len() ==> outcome_matches(cs, #[trigger] os[t], t),
        forall|i: int|
            0 <= i < cs[0].company.scenarios@.len() ==> (
            #[trigger] cs[0].company.scenarios@[i]).probability != i64::MIN,
    ensures
        sum_outcome_probabilities(os, m) == crate::model::company::sum_probabilities(
            cs[0].company.scenarios@,
            m,
        ),
    decreases m,
{
    if m > 0 {
        lemma_single_company_probability_mass(cs, os, m - 1);
        assert(outcome_matches(cs, os[m - 1], m - 1));
        assert(product_counts(cs, 0) == 1);
        assert(count_of(cs, 0) == os.len());
        assert((m - 1) / 1int == m - 1);
        assert((m - 1) % (os.len() as int) == m - 1) by (nonlinear_arith)
            requires
                0 <= m - 1 < os.len() as int,
        ;
        assert(digit_at(cs, m - 1, 0) == m - 1);
        assert(os[m - 1].probability as int == outcome_probability_to(cs, m - 1, 1));
        let p = cs[0].company.scenarios@[m - 1].probability;
        assert(outcome_probability_to(cs, m - 1, 0) == SCALE as int);
        assert(outcome_probability_to(cs, m - 1, 1) == crate::fixed::mul_fx_spec(
            SCALE as int,
            p as int,
        ));
        crate::fixed::lemma_mul_fx_one(p as int);
        assert(os[m - 1].probability as int == p as int);
    }
}

/// Two portfolios with the same per-company scenario counts have the same
/// count products.
pub proof fn lemma_product_counts_eq(
    cs1: Seq<PortfolioCompany>,
    cs2: Seq<PortfolioCompany>,
    n: int,
)
    requires
        0 <= n <= cs1.len(),
        n <= cs2.len(),
        forall|k: int| 0 <= k < n ==> count_of(cs1, k) == count_of(cs2, k),
    ensures
        product_counts(cs1, n) == product_counts(cs2, n),
    decreases n,
{
    if n > 0 {
        lemma_product_counts_eq(cs1, cs2, n - 1);
    }
}

/// Returns all possible outcomes of the portfolio, in mixed-radix order,
/// or an error when there would be more than `MAX_OUTCOMES` of them.
#[verifier::loop_isolation(false)]
pub fn all_outcomes(portfolio: &Portfolio) -> (r: Result<Vec<Outcome>, Error>)
    ensures
        r is Ok <==> outcome_count(portfolio.companies@) <= MAX_OUTCOMES as int,
        r matches Ok(v) ==> {
            &&& v@.len() == outcome_count(portfolio.companies@)
            &&& forall|t: int|
                0 <= t < v@.len() ==> outcome_matches(portfolio.companies@, #[trigger] v@[t], t)
        },
        r matches Err(e) ==> e.code@ == "more-than-fifty-thousand-outcomes"@,
        r matches Err(e) ==> (outcome_count(portfolio.companies@) <= 0xffff_ffff_ffff_ffff
            ==> e.message@ == "You have "@ + crate::text::decimal_digits(
            outcome_count(portfolio.companies@),
        )
            + " different outcomes for your portfolio. This software is designed for a focused investment strategy, and it seems you have too many companies or too many scenarios for companies."@),
{
    let cs = &portfolio.companies;
    let n = cs.len();
    if n == 0 {
        return Ok(Vec::new());
    }
    // A company without scenarios forces an empty enumeration.
    let mut i: usize = 0;
    while i < n
        invariant
            0 <= i <= n,
            n == cs@.len(),
            forall|k: int| 0 <= k < i as int ==> count_of(cs@, k) >= 1,
        decreases n - i,
    {
        if cs[i].company.scenarios.len() == 0 {
            proof {
                lemma_product_zero(cs@, i as int, n as int);
            }
            return Ok(Vec::new());
        }
        i = i + 1;
    }
    // The number of outcomes; the accumulator tracks the true product
    // exactly as long as it does not exceed the ceiling.
    let mut count: u128 = 1;
    let mut i: usize = 0;
    while i < n
        invariant
            0 <= i <= n,
            n == cs@.len(),
            forall|k: int| 0 <= k < n ==> count_of(cs@, k) >= 1,
            product_counts(cs@, i as int) <= MAX_OUTCOMES as int ==> count == product_counts(
                cs@,
                i as int,
            ),
            product_counts(cs@, i as int) <= 0xffff_ffff_ffff_ffff ==> count == product_counts(
                cs@,
                i as int,
            ),
            product_counts(cs@, i as int) > MAX_OUTCOMES as int ==> count > MAX_OUTCOMES as u128,
            count >= 1,
        decreases n - i,
    {
        let c = cs[i].company.scenarios.len();
        proof {
            lemma_product_positive(cs@, i as int);
            assert(product_counts(cs@, i as int + 1) == product_counts(cs@, i as int) * count_of(
                cs@,
                i as int,
            ));
            assert(product_counts(cs@, i as int) * count_of(cs@, i as int) >= product_counts(
                cs@,
                i as int,
            )) by (nonlinear_arith)
                requires
                    product_counts(cs@, i as int) >= 1,
                    count_of(cs@, i as int) >= 1,
            ;
        }
        if count <= 0xffff_ffff_ffff_ffff {
            proof {
                assert(count as int * c as int <= 0xffff_ffff_ffff_ffffu128 as int
                    * 0xffff_ffff_ffff_ffffu128 as int) by (nonlinear_arith)
                    requires
                        0 <= count as int <= 0xffff_ffff_ffff_ffffu128 as int,
                        0 <= c as int <= 0xffff_ffff_ffff_ffffu128 as int,
                ;
                if count > MAX_OUTCOMES as u128 {
                    assert(count as int * c as int >= count as int) by (nonlinear_arith)
                        requires
                            count as int >= 1,
                            c as int >= 1,
                    ;
                }
            }
            count = count * (c as u128);
        } else {
            proof {
                assert(product_counts(cs@, i as int + 1) > MAX_OUTCOMES as int);
            }
        }
        i = i + 1;
    }
    if count > MAX_OUTCOMES as u128 {
        let shown: u64 = if count > 0xffff_ffff_ffff_ffff {
            0xffff_ffff_ffff_ffff
        } else {
            count as u64
        };
        let mut message = String::from_str("You have ");
        message.append(uint_string(shown).as_str());
        message.append(
            " different outcomes for your portfolio. This software is designed for a focused investment strategy, and it seems you have too many companies or too many scenarios for companies.",
        );
        return Err(
            Error {
                code: String::from_str("more-than-fifty-thousand-outcomes"),
                message,
            },
        );
    }
    let n_outcomes: usize = count as usize;
    // Prefix products of the scenario counts: the strides of the
    // mixed-radix decomposition.
    let mut strides: Vec<usize> = Vec::new();
    let mut s: usize = 1;
    let mut i: usize = 0;
    while i < n
        invariant
            0 <= i <= n,
            n == cs@.len(),
            forall|k: int| 0 <= k < n ==> count_of(cs@, k) >= 1,
            product_counts(cs@, n as int) <= MAX_OUTCOMES as int,
            s as int == product_counts(cs@, i as int),
            strides@.len() == i,
            forall|k: int| 0 <= k < i as int ==> (#[trigger] strides@[k]) as int == product_counts(
                cs@,
                k,
            ),
        decreases n - i,
    {
        strides.push(s);
        proof {
            lemma_product_monotone(cs@, i as int + 1, n as int);
            lemma_product_positive(cs@, i as int);
        }
        s = s * cs[i].company.scenarios.len();
        i = i + 1;
    }
    let mut outcomes: Vec<Outcome> = Vec::new();
    let mut t: usize = 0;
    while t < n_outcomes
        invariant
            0 <= t <= n_outcomes,
            n == cs@.len(),
            n_outcomes as int == product_counts(cs@, n as int),
            forall|k: int| 0 <= k < n ==> count_of(cs@, k) >= 1,
            strides@.len() == n,
            forall|k: int| 0 <= k < n as int ==> (#[trigger] strides@[k]) as int == product_counts(
                cs@,
                k,
            ),
            outcomes@.len() == t,
            forall|u: int| 0 <= u < t as int ==> outcome_matches(cs@, #[trigger] outcomes@[u], u),
        decreases n_outcomes - t,
    {
        let mut weighted_return: i64 = 0;
        let mut probability: i64 = SCALE;
        let mut company_returns: Vec<i64> = Vec::new();
        let mut j: usize = 0;
        while j < n
            invariant
                0 <= j <= n,
                n == cs@.len(),
                forall|k: int| 0 <= k < n ==> count_of(cs@, k) >= 1,
                strides@.len() == n,
                forall|k: int| 0 <= k < n as int ==> (#[trigger] strides@[k]) as int
                    == product_counts(cs@, k),
                company_returns@.len() == j,
                forall|k: int| 0 <= k < j as int ==> (#[trigger] company_returns@[k]) as int
                    == return_at(cs@, t as int, k),
                probability as int == outcome_probability_to(cs@, t as int, j as int),
                weighted_return as int == outcome_weighted_to(cs@, t as int, j as int),
            decreases n - j,
        {
            let c = &cs[j].company;
            let count_j = c.scenarios.len();
            proof {
                lemma_product_positive(cs@, j as int);
                assert(strides@[j as int] as int == product_counts(cs@, j as int));
                assert(strides@[j as int] >= 1);
                assert(count_of(cs@, j as int) >= 1);
                assert(count_j >= 1);
            }
            let idx: usize = (t / strides[j]) % count_j;
            let sret = c.scenarios[idx].scenario_return(c.market_cap);
            weighted_return = add_fx(weighted_return, mul_fx(cs[j].fraction, sret));
            probability = mul_fx(probability, c.scenarios[idx].probability);
            company_returns.push(sret);
            j = j + 1;
        }
        outcomes.push(Outcome { weighted_return, probability, company_returns });
        t = t + 1;
    }
    Ok(outcomes)
}

/// The expected return of the portfolio, accumulated company by company:
/// the inner sum over a company's scenarios of `fraction` times the
/// probability-weighted return.
pub open spec fn expected_return_inner(
    pc: PortfolioCompany,
    m: int,
) -> int
    decreases m,
{
    if m <= 0 {
        0
    } else {
        add_fx_spec(
            expected_return_inner(pc, m - 1),
            mul_fx_spec(
                pc.fraction as int,
                probability_weighted_return_spec(
                    pc.company.scenarios@[m - 1],
                    pc.company.market_cap as int,
                ),
            ),
        )
    }
}

/// The expected return of the portfolio over its first `n` companies.
pub open spec fn expected_return_to(cs: Seq<PortfolioCompany>, n: int) -> int
    decreases n,
{
    if n <= 0 {
        0
    } else {
        add_fx_spec(
            expected_return_to(cs, n - 1),
            expected_return_inner(cs[n - 1], cs[n - 1].company.scenarios@.len() as int),
        )
    }
}

/// Calculates the expected return of a portfolio.
#[verifier::loop_isolation(false)]
pub fn expected_return(portfolio: &Portfolio) -> (r: i64)
    ensures
        r as int == expected_return_to(portfolio.companies@, portfolio.companies@.len() as int),
{
    let cs = &portfolio.companies;
    let mut acc: i64 = 0;
    let mut i: usize = 0;
    while i < cs.len()
        invariant
            0 <= i <= cs@.len(),
            acc as int == expected_return_to(cs@, i as int),
        decreases cs@.len() - i,
    {
        let pc = &cs[i];
        let mut inner: i64 = 0;
        let mut m: usize = 0;
        while m < pc.company.scenarios.len()
            invariant
                0 <= m <= pc.company.scenarios@.len(),
                pc == cs@[i as int],
                inner as int == expected_return_inner(cs@[i as int], m as int),
            decreases pc.company.scenarios@.len() - m,
        {
            inner = add_fx(
                inner,
                mul_fx(
                    pc.fraction,
                    pc.company.scenarios[m].probability_weighted_return(pc.company.market_cap),
                ),
            );
            m = m + 1;
        }
        acc = add_fx(acc, inner);
        i = i + 1;
    }
    acc
}

/// The probability-weighted-return key by which the worst scenario of a
/// company is chosen.
pub open spec fn worst_key(pc: PortfolioCompany, m: int) -> int {
    mul_fx_spec(
        pc.fraction as int,
        probability_weighted_return_spec(pc.company.scenarios@[m], pc.company.market_cap as int),
    )
}

/// The index of the first scenario minimising `worst_key` among the first
/// `m` scenarios of the company.
pub open spec fn worst_index_to(pc: PortfolioCompany, m: int) -> int
    decreases m,
{
    if m <= 1 {
        0
    } else {
        let p = worst_index_to(pc, m - 1);
        if worst_key(pc, m - 1) < worst_key(pc, p) {
            m - 1
        } else {
            p
        }
    }
}

/// The index of the worst scenario of a company.
pub open spec fn worst_index(pc: PortfolioCompany) -> int {
    worst_index_to(pc, pc.company.scenarios@.len() as int)
}

/// The contribution of company `i` to the worst-case portfolio return.
pub open spec fn worst_return_of(pc: PortfolioCompany) -> int {
    mul_fx_spec(
        pc.fraction as int,
        scenario_return_spec(
            pc.company.scenarios@[worst_index(pc)],
            pc.company.market_cap as int,
        ),
    )
}

/// The joint probability of the per-company worst scenarios over the first
/// `n` companies.
pub open spec fn worst_probability_to(cs: Seq<PortfolioCompany>, n: int) -> int
    decreases n,
{
    if n <= 0 {
        SCALE as int
    } else {
        mul_fx_spec(
            worst_probability_to(cs, n - 1),
            cs[n - 1].company.scenarios@[worst_index(cs[n - 1])].probability as int,
        )
    }
}

/// The worst-case portfolio return over the first `n` companies.
pub open spec fn worst_return_to(cs: Seq<PortfolioCompany>, n: int) -> int
    decreases n,
{
    if n <= 0 {
        0
    } else {
        add_fx_spec(worst_return_to(cs, n - 1), worst_return_of(cs[n - 1]))
    }
}

/// The probability-weighted worst-case return over the first `n` companies.
pub open spec fn worst_weighted_to(cs: Seq<PortfolioCompany>, n: int) -> int
    decreases n,
{
    if n <= 0 {
        0
    } else {
        add_fx_spec(
            worst_weighted_to(cs, n - 1),
            mul_fx_spec(
                cs[n - 1].company.scenarios@[worst_index(cs[n - 1])].probability as int,
                worst_return_of(cs[n - 1]),
            ),
        )
    }
}

/// Finds the worst-case outcome of a portfolio: each company contributes
/// its own worst probability-weighted scenario, and the contributions are
/// aggregated as if those scenarios coincided.  This deliberately is not
/// the minimum over the enumerated joint outcomes.
#[verifier::loop_isolation(false)]
pub fn worst_case_outcome(portfolio: &Portfolio) -> (r: ProbabilityAndReturns)
    requires
        portfolio.companies@.len() > 0,
        forall|i: int|
            0 <= i < portfolio.companies@.len() ==> (
            #[trigger] portfolio.companies@[i]).company.scenarios@.len() > 0,
    ensures
        r.probability as int == worst_probability_to(
            portfolio.companies@,
            portfolio.companies@.len() as int,
        ),
        r.portfolio_return as int == worst_return_to(
            portfolio.companies@,
            portfolio.companies@.len() as int,
        ),
        r.probability_weighted_return as int == worst_weighted_to(
            portfolio.companies@,
            portfolio.companies@.len() as int,
        ),
{
    let cs = &portfolio.companies;
    let mut probability: i64 = SCALE;
    let mut portfolio_return: i64 = 0;
    let mut weighted: i64 = 0;
    let mut i: usize = 0;
    while i < cs.len()
        invariant
            0 <= i <= cs@.len(),
            forall|k: int| 0 <= k < cs@.len() ==> (#[trigger] cs@[k]).company.scenarios@.len() > 0,
            probability as int == worst_probability_to(cs@, i as int),
            portfolio_return as int == worst_return_to(cs@, i as int),
            weighted as int == worst_weighted_to(cs@, i as int),
        decreases cs@.len() - i,
    {
        let pc = &cs[i];
        let n_s = pc.company.scenarios.len();
        let mut best: usize = 0;
        let mut best_key: i64 = mul_fx(
            pc.fraction,
            pc.company.scenarios[0].probability_weighted_return(pc.company.market_cap),
        );
        let mut m: usize = 1;
        while m < n_s
            invariant
                1 <= m <= n_s,
                n_s == pc.company.scenarios@.len(),
                pc == cs@[i as int],
                0 <= best < m,
                best as int == worst_index_to(cs@[i as int], m as int),
                best_key as int == worst_key(cs@[i as int], best as int),
            decreases n_s - m,
        {
            let key = mul_fx(
                pc.fraction,
                pc.company.scenarios[m].probability_weighted_return(pc.company.market_cap),
            );
            if key < best_key {
                best = m;
                best_key = key;
            }
            m = m + 1;
        }
        let worst = &pc.company.scenarios[best];
        let ret = mul_fx(pc.fraction, worst.scenario_return(pc.company.market_cap));
        probability = mul_fx(probability, worst.probability);
        portfolio_return = add_fx(portfolio_return, ret);
        weighted = add_fx(weighted, mul_fx(worst.probability, ret));
        i = i + 1;
    }
    ProbabilityAndReturns {
        probability,
        portfolio_return,
        probability_weighted_return: weighted,
    }
}

/// The cumulative probability of loss over the first `n` outcomes: the sum
/// of the probabilities of the outcomes with a negative weighted return.
pub open spec fn loss_probability_to(os: Seq<Outcome>, n: int) -> int
    decreases n,
{
    if n <= 0 {
        0
    } else if os[n - 1].weighted_return < 0 {
        add_fx_spec(loss_probability_to(os, n - 1), os[n - 1].probability as int)
    } else {
        loss_probability_to(os, n - 1)
    }
}

/// The cumulative probability of loss over the first `m` outcome numbers
/// of a portfolio, expressed over the outcome specification itself.
pub open spec fn cumulative_loss_spec(cs: Seq<PortfolioCompany>, m: int) -> int
    decreases m,
{
    if m <= 0 {
        0
    } else if outcome_weighted_to(cs, m - 1, cs.len() as int) < 0 {
        add_fx_spec(
            cumulative_loss_spec(cs, m - 1),
            outcome_probability_to(cs, m - 1, cs.len() as int),
        )
    } else {
        cumulative_loss_spec(cs, m - 1)
    }
}

/// On a sequence of outcomes that match the portfolio's enumeration, the
/// loss probability summed over the outcomes equals the loss probability
/// summed over the outcome numbers.
pub proof fn lemma_loss_probability_matches(
    cs: Seq<PortfolioCompany>,
    os: Seq<Outcome>,
    m: int,
)
    requires
        0 <= m <= os.len(),
        forall|t: int| 0 <= t < m ==> outcome_matches(cs, #[trigger] os[t], t),
    ensures
        loss_probability_to(os, m) == cumulative_loss_spec(cs, m),
    decreases m,
{
    if m > 0 {
        lemma_loss_probability_matches(cs, os, m - 1);
    }
}

/// Calculates the cumulative probability of losing money.
#[verifier::loop_isolation(false)]
pub fn cumulative_probability_of_loss(outcomes: &Vec<Outcome>) -> (r: i64)
    ensures
        r as int == loss_probability_to(outcomes@, outcomes@.len() as int),
{
    let mut acc: i64 = 0;
    let mut i: usize = 0;
    while i < outcomes.len()
        invariant
            0 <= i <= outcomes@.len(),
            acc as int == loss_probability_to(outcomes@, i as int),
        decreases outcomes@.len() - i,
    {
        if outcomes[i].weighted_return < 0 {
            acc = add_fx(acc, outcomes[i].probability);
        }
        i = i + 1;
    }
    acc
}

} // verus!
