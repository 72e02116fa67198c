use core::ops::{Add, Div, Mul, Sub};
use vstd::prelude::*;
use vstd::std_specs::ops::{AddSpec, DivSpec, MulSpec, SubSpec};

verus! {

// Each ratio is generic over the number type `C`. Where `C`'s arithmetic is
// known to Verus (`obeys_*_spec`, as for the machine integers), the result is
// the formula evaluated with `C`'s own operations; the `requires` are the
// conditions under which every operation of the formula is defined (for
// integers: no division by zero, no overflow).

/// Liquidity: current ratio: `current_assets / current_liabilities`.
pub fn current<C>(current_assets: C, current_liabilities: C) -> (r: C)
    where
        C: Div<Output = C>,
    requires
        current_assets.div_req(current_liabilities),
    ensures
        C::obeys_div_spec() ==> r == current_assets.div_spec(current_liabilities),
{
    current_assets / current_liabilities
}

/// Liquidity: cash ratio: `cash_and_equivalents / current_liabilities`.
pub fn cash<C>(cash_and_equivalents: C, current_liabilities: C) -> (r: C)
    where
        C: Div<Output = C>,
    requires
        cash_and_equivalents.div_req(current_liabilities),
    ensures
        C::obeys_div_spec() ==> r == cash_and_equivalents.div_spec(current_liabilities),
{
    cash_and_equivalents / current_liabilities
}

/// Profitability: gross margin: `gross_profit / revenue`.
pub fn gross_m<C>(gross_profit: C, revenue: C) -> (r: C)
    where
        C: Div<Output = C>,
    requires
        gross_profit.div_req(revenue),
    ensures
        C::obeys_div_spec() ==> r == gross_profit.div_spec(revenue),
{
    gross_profit / revenue
}

/// Profitability: operating margin: `operating_income / revenue`.
pub fn operating_m<C>(operating_income: C, revenue: C) -> (r: C)
    where
        C: Div<Output = C>,
    requires
        operating_income.div_req(revenue),
    ensures
        C::obeys_div_spec() ==> r == operating_income.div_spec(revenue),
{
    operating_income / revenue
}

/// Profitability: net margin: `net_income / revenue`.
pub fn net_m<C>(net_income: C, revenue: C) -> (r: C)
    where
        C: Div<Output = C>,
    requires
        net_income.div_req(revenue),
    ensures
        C::obeys_div_spec() ==> r == net_income.div_spec(revenue),
{
    net_income / revenue
}

/// Profitability: return on assets: `net_income / total_assets`.
pub fn r_o_a<C>(net_income: C, total_assets: C) -> (r: C)
    where
        C: Div<Output = C>,
    requires
        net_income.div_req(total_assets),
    ensures
        C::obeys_div_spec() ==> r == net_income.div_spec(total_assets),
{
    net_income / total_assets
}

/// Profitability: return on equity: `net_income / shareholders_equity`.
pub fn r_o_e<C>(net_income: C, shareholders_equity: C) -> (r: C)
    where
        C: Div<Output = C>,
    requires
        net_income.div_req(shareholders_equity),
    ensures
        C::obeys_div_spec() ==> r == net_income.div_spec(shareholders_equity),
{
    net_income / shareholders_equity
}

/// Leverage: debt to equity: `total_debt / shareholders_equity`.
pub fn d_t_e<C>(total_debt: C, shareholders_equity: C) -> (r: C)
    where
        C: Div<Output = C>,
    requires
        total_debt.div_req(shareholders_equity),
    ensures
        C::obeys_div_spec() ==> r == total_debt.div_spec(shareholders_equity),
{
    total_debt / shareholders_equity
}

/// Leverage: debt ratio: `total_debt / total_assets`.
pub fn d_r<C>(total_debt: C, total_assets: C) -> (r: C)
    where
        C: Div<Output = C>,
    requires
        total_debt.div_req(total_assets),
    ensures
        C::obeys_div_spec() ==> r == total_debt.div_spec(total_assets),
{
    total_debt / total_assets
}

/// Leverage: interest coverage (EBIT over interest expense): `ebit / interest_expense`.
pub fn ebit_i_c<C>(ebit: C, interest_expense: C) -> (r: C)
    where
        C: Div<Output = C>,
    requires
        ebit.div_req(interest_expense),
    ensures
        C::obeys_div_spec() ==> r == ebit.div_spec(interest_expense),
{
    ebit / interest_expense
}

/// Activity: inventory turnover: `cost_of_goods_sold / average_inventory`.
pub fn inv_t<C>(cost_of_goods_sold: C, average_inventory: C) -> (r: C)
    where
        C: Div<Output = C>,
    requires
        cost_of_goods_sold.div_req(average_inventory),
    ensures
        C::obeys_div_spec() ==> r == cost_of_goods_sold.div_spec(average_inventory),
{
    cost_of_goods_sold / average_inventory
}

/// Activity: receivables turnover: `revenue / average_accounts_receivable`.
pub fn rec_t<C>(revenue: C, average_accounts_receivable: C) -> (r: C)
    where
        C: Div<Output = C>,
    requires
        revenue.div_req(average_accounts_receivable),
    ensures
        C::obeys_div_spec() ==> r == revenue.div_spec(average_accounts_receivable),
{
    revenue / average_accounts_receivable
}

/// Activity: asset turnover: `revenue / total_assets`.
pub fn a_t<C>(revenue: C, total_assets: C) -> (r: C)
    where
        C: Div<Output = C>,
    requires
        revenue.div_req(total_assets),
    ensures
        C::obeys_div_spec() ==> r == revenue.div_spec(total_assets),
{
    revenue / total_assets
}

/// Valuation: price to earnings: `share_price / earnings_per_share`.
pub fn p_t_e<C>(share_price: C, earnings_per_share: C) -> (r: C)
    where
        C: Div<Output = C>,
    requires
        share_price.div_req(earnings_per_share),
    ensures
        C::obeys_div_spec() ==> r == share_price.div_spec(earnings_per_share),
{
    share_price / earnings_per_share
}

/// Valuation: price to book: `share_price / book_value_per_share`.
pub fn p_t_b<C>(share_price: C, book_value_per_share: C) -> (r: C)
    where
        C: Div<Output = C>,
    requires
        share_price.div_req(book_value_per_share),
    ensures
        C::obeys_div_spec() ==> r == share_price.div_spec(book_value_per_share),
{
    share_price / book_value_per_share
}

/// Valuation: dividend yield: `annual_dividends_per_share / share_price`.
pub fn div_y<C>(annual_dividends_per_share: C, share_price: C) -> (r: C)
    where
        C: Div<Output = C>,
    requires
        annual_dividends_per_share.div_req(share_price),
    ensures
        C::obeys_div_spec() ==> r == annual_dividends_per_share.div_spec(share_price),
{
    annual_dividends_per_share / share_price
}

/// Liquidity: quick ratio, `(current_assets − inventory) / current_liabilities`.
pub fn quick<C>(current_assets: C, inventory: C, current_liabilities: C) -> (r: C)
    where
        C: Div<Output = C> + Sub<Output = C>,
    requires
        current_assets.sub_req(inventory),
        C::obeys_sub_spec() ==> current_assets.sub_spec(inventory).div_req(current_liabilities),
        !C::obeys_sub_spec() ==> forall|d: C| #[trigger] d.div_req(current_liabilities),
    ensures
        C::obeys_sub_spec() && C::obeys_div_spec() ==> r == current_assets.sub_spec(inventory).div_spec(
            current_liabilities,
        ),
{
    (current_assets - inventory) / current_liabilities
}

/// Liquidity: acid-test ratio, `(cash + inventory + accounts_recievable) / current_liabilities`.
pub fn acid<C>(cash: C, inventory: C, accounts_recievable: C, current_liabilities: C) -> (r: C)
    where
        C: Div<Output = C> + Add<Output = C>,
    requires
        cash.add_req(inventory),
        C::obeys_add_spec() ==> cash.add_spec(inventory).add_req(accounts_recievable),
        C::obeys_add_spec() ==> cash.add_spec(inventory).add_spec(accounts_recievable).div_req(
            current_liabilities,
        ),
        !C::obeys_add_spec() ==> forall|s: C| #[trigger] s.add_req(accounts_recievable),
        !C::obeys_add_spec() ==> forall|s: C| #[trigger] s.div_req(current_liabilities),
    ensures
        C::obeys_add_spec() && C::obeys_div_spec() ==> r == cash.add_spec(inventory).add_spec(
            accounts_recievable,
        ).div_spec(current_liabilities),
{
    (cash + inventory + accounts_recievable) / current_liabilities
}

/// Build-up: market risk premium, `equity_market_return − rfr`.
pub fn mrp<C>(equity_market_return: C, rfr: C) -> (r: C)
    where
        C: Sub<Output = C>,
    requires
        equity_market_return.sub_req(rfr),
    ensures
        C::obeys_sub_spec() ==> r == equity_market_return.sub_spec(rfr),
{
    equity_market_return - rfr
}

/// Build-up: cost of equity by CAPM, `rfr + equity_beta · mrp`.
pub fn coe<C>(rfr: C, equity_beta: C, mrp: C) -> (r: C)
    where
        C: Mul<Output = C> + Add<Output = C>,
    requires
        equity_beta.mul_req(mrp),
        C::obeys_mul_spec() ==> rfr.add_req(equity_beta.mul_spec(mrp)),
        !C::obeys_mul_spec() ==> forall|p: C| #[trigger] rfr.add_req(p),
    ensures
        C::obeys_mul_spec() && C::obeys_add_spec() ==> r == rfr.add_spec(equity_beta.mul_spec(mrp)),
{
    rfr + (equity_beta * mrp)
}

// ---------------------------------------------------------------------------
// Build-ups that use the unit `1` of `C`
// ---------------------------------------------------------------------------
//
// The unit comes from `num_traits::One::one`, which is documented only to obey
// `a · 1 = a` and `1 · a = a`. So each spec function below takes the unit as an
// argument, and each build-up states its result for an identity of `C`. Where
// the products of two identities are defined (as for every machine integer),
// all identities are one and the same: see [`lemma_identity_unique`].

/// Verus knows `C`'s addition, subtraction and multiplication.
pub open spec fn ring_obeys<C>() -> bool
    where
        C: Add<Output = C> + Sub<Output = C> + Mul<Output = C>,
{
    C::obeys_add_spec() && C::obeys_sub_spec() && C::obeys_mul_spec()
}

/// Addition, subtraction and multiplication of `C` are defined on all values.
pub open spec fn ring_total<C>() -> bool
    where
        C: Add<Output = C> + Sub<Output = C> + Mul<Output = C>,
{
    forall|a: C, b: C| #![trigger a.add_req(b)] #![trigger a.sub_req(b)] #![trigger a.mul_req(b)]
        a.add_req(b) && a.sub_req(b) && a.mul_req(b)
}

/// `u` is a multiplicative identity of `C` wherever its product is defined:
/// `a · u = a` and `u · a = a` for every `a` for which the product is defined.
pub open spec fn is_mul_identity<C>(u: C) -> bool
    where
        C: Mul<Output = C>,
{
    forall|a: C| #![trigger a.mul_spec(u)] #![trigger u.mul_spec(a)]
        (a.mul_req(u) ==> a.mul_spec(u) == a) && (u.mul_req(a) ==> u.mul_spec(a) == a)
}

/// `num_traits::One::one`. Its documentation states the laws `a · 1 = a` and
/// `1 · a = a` for all `a`. Where `C`'s multiplication is known to Verus, the
/// result is stated to obey them wherever the product is defined; nothing is
/// stated where it is not, nor for other `C`.
#[verifier::external_body]
fn one<C: num_traits::One>() -> (r: C)
    ensures
        C::obeys_mul_spec() ==> is_mul_identity(r),
{
    C::one()
}

/// Two identities whose product is defined are equal.
pub proof fn lemma_identity_unique<C>(u: C, w: C)
    where
        C: Mul<Output = C>,
    requires
        is_mul_identity(u),
        is_mul_identity(w),
        u.mul_req(w),
    ensures
        u == w,
{
    assert(u.mul_spec(w) == u);
    assert(u.mul_spec(w) == w);
}

/// `one − tax_rate`, the after-tax share.
pub open spec fn after_tax<C>(one: C, tax_rate: C) -> C
    where
        C: Sub<Output = C>,
{
    one.sub_spec(tax_rate)
}

/// FCFF from net income:
/// `net_income + non_cash_charges + interest·(1 − tax_rate) − capex − change_in_working_capital`.
pub open spec fn fcff_ni_spec<C>(ni: C, ncc: C, interest: C, tax_rate: C, capex: C, cwc: C, one: C) -> C
    where
        C: Add<Output = C> + Sub<Output = C> + Mul<Output = C>,
{
    ni.add_spec(ncc).add_spec(interest.mul_spec(after_tax(one, tax_rate))).sub_spec(capex).sub_spec(cwc)
}

/// Every operation of [`fcff_ni_spec`] is defined.
pub open spec fn fcff_ni_defined<C>(ni: C, ncc: C, interest: C, tax_rate: C, capex: C, cwc: C, one: C) -> bool
    where
        C: Add<Output = C> + Sub<Output = C> + Mul<Output = C>,
{
    let at = after_tax(one, tax_rate);
    let shield = interest.mul_spec(at);
    let s1 = ni.add_spec(ncc);
    let s2 = s1.add_spec(shield);
    let s3 = s2.sub_spec(capex);
    &&& ni.add_req(ncc)
    &&& one.sub_req(tax_rate)
    &&& interest.mul_req(at)
    &&& s1.add_req(shield)
    &&& s2.sub_req(capex)
    &&& s3.sub_req(cwc)
}

/// Build-up: free cash flow to the firm from net income.
pub fn fcff_ni<C>(
    net_income: C,
    non_cash_charges: C,
    interest: C,
    tax_rate: C,
    capex: C,
    change_in_working_capital: C,
) -> (r: C)
    where
        C: Mul<Output = C> + Add<Output = C> + Sub<Output = C> + num_traits::One,
    requires
        ring_obeys::<C>() ==> forall|u: C| #[trigger] is_mul_identity(u) ==> fcff_ni_defined(
            net_income,
            non_cash_charges,
            interest,
            tax_rate,
            capex,
            change_in_working_capital,
            u,
        ),
        !ring_obeys::<C>() ==> ring_total::<C>(),
    ensures
        ring_obeys::<C>() ==> exists|u: C| #[trigger] is_mul_identity(u) && r == fcff_ni_spec(
            net_income,
            non_cash_charges,
            interest,
            tax_rate,
            capex,
            change_in_working_capital,
            u,
        ),
{
    let u = one::<C>();
    proof {
        if ring_obeys::<C>() {
            assert(is_mul_identity(u));
        }
    }
    net_income + non_cash_charges + (interest * (u - tax_rate)) - capex - change_in_working_capital
}

/// FCFF from cash flow from operations: `cfo + interest_expense·(1 − tax_rate) − capex`.
pub open spec fn fcff_cfo_spec<C>(cfo: C, interest_expense: C, tax_rate: C, capex: C, one: C) -> C
    where
        C: Add<Output = C> + Sub<Output = C> + Mul<Output = C>,
{
    cfo.add_spec(interest_expense.mul_spec(after_tax(one, tax_rate))).sub_spec(capex)
}

/// Every operation of [`fcff_cfo_spec`] is defined.
pub open spec fn fcff_cfo_defined<C>(cfo: C, interest_expense: C, tax_rate: C, capex: C, one: C) -> bool
    where
        C: Add<Output = C> + Sub<Output = C> + Mul<Output = C>,
{
    let at = after_tax(one, tax_rate);
    let shield = interest_expense.mul_spec(at);
    &&& one.sub_req(tax_rate)
    &&& interest_expense.mul_req(at)
    &&& cfo.add_req(shield)
    &&& cfo.add_spec(shield).sub_req(capex)
}

/// Build-up: free cash flow to the firm from cash flow from operations.
pub fn fcff_cfo<C>(cfo: C, interest_expense: C, tax_rate: C, capex: C) -> (r: C)
    where
        C: Mul<Output = C> + Add<Output = C> + Sub<Output = C> + num_traits::One,
    requires
        ring_obeys::<C>() ==> forall|u: C| #[trigger] is_mul_identity(u) ==> fcff_cfo_defined(
            cfo,
            interest_expense,
            tax_rate,
            capex,
            u,
        ),
        !ring_obeys::<C>() ==> ring_total::<C>(),
    ensures
        ring_obeys::<C>() ==> exists|u: C| #[trigger] is_mul_identity(u) && r == fcff_cfo_spec(
            cfo,
            interest_expense,
            tax_rate,
            capex,
            u,
        ),
{
    let u = one::<C>();
    proof {
        if ring_obeys::<C>() {
            assert(is_mul_identity(u));
        }
    }
    cfo + interest_expense * (u - tax_rate) - capex
}

/// FCFF from EBIT: `ebit·(1 − tax_rate) + depreciation − capex − change_in_working_capital`.
pub open spec fn fcff_ebit_spec<C>(ebit: C, tax_rate: C, depreciation: C, capex: C, cwc: C, one: C) -> C
    where
        C: Add<Output = C> + Sub<Output = C> + Mul<Output = C>,
{
    ebit.mul_spec(after_tax(one, tax_rate)).add_spec(depreciation).sub_spec(capex).sub_spec(cwc)
}

/// Every operation of [`fcff_ebit_spec`] is defined.
pub open spec fn fcff_ebit_defined<C>(ebit: C, tax_rate: C, depreciation: C, capex: C, cwc: C, one: C) -> bool
    where
        C: Add<Output = C> + Sub<Output = C> + Mul<Output = C>,
{
    let at = after_tax(one, tax_rate);
    let s1 = ebit.mul_spec(at);
    let s2 = s1.add_spec(depreciation);
    let s3 = s2.sub_spec(capex);
    &&& one.sub_req(tax_rate)
    &&& ebit.mul_req(at)
    &&& s1.add_req(depreciation)
    &&& s2.sub_req(capex)
    &&& s3.sub_req(cwc)
}

/// Build-up: free cash flow to the firm from EBIT.
pub fn fcff_ebit<C>(ebit: C, tax_rate: C, depreciation: C, capex: C, change_in_working_capital: C) -> (r: C)
    where
        C: Mul<Output = C> + Add<Output = C> + Sub<Output = C> + num_traits::One,
    requires
        ring_obeys::<C>() ==> forall|u: C| #[trigger] is_mul_identity(u) ==> fcff_ebit_defined(
            ebit,
            tax_rate,
            depreciation,
            capex,
            change_in_working_capital,
            u,
        ),
        !ring_obeys::<C>() ==> ring_total::<C>(),
    ensures
        ring_obeys::<C>() ==> exists|u: C| #[trigger] is_mul_identity(u) && r == fcff_ebit_spec(
            ebit,
            tax_rate,
            depreciation,
            capex,
            change_in_working_capital,
            u,
        ),
{
    let u = one::<C>();
    proof {
        if ring_obeys::<C>() {
            assert(is_mul_identity(u));
        }
    }
    ebit * (u - tax_rate) + depreciation - capex - change_in_working_capital
}

/// FCFF from EBITDA:
/// `ebitda·(1 − tax_rate) + depreciation·(1 − tax_rate) − capex − change_in_working_capital`,
/// with the unit of each after-tax share given apart (`one_a`, `one_b`).
pub open spec fn fcff_ebitda_spec<C>(
    ebitda: C,
    tax_rate: C,
    depreciation: C,
    capex: C,
    cwc: C,
    one_a: C,
    one_b: C,
) -> C
    where
        C: Add<Output = C> + Sub<Output = C> + Mul<Output = C>,
{
    ebitda.mul_spec(after_tax(one_a, tax_rate)).add_spec(
        depreciation.mul_spec(after_tax(one_b, tax_rate)),
    ).sub_spec(capex).sub_spec(cwc)
}

/// Every operation of [`fcff_ebitda_spec`] is defined.
pub open spec fn fcff_ebitda_defined<C>(
    ebitda: C,
    tax_rate: C,
    depreciation: C,
    capex: C,
    cwc: C,
    one_a: C,
    one_b: C,
) -> bool
    where
        C: Add<Output = C> + Sub<Output = C> + Mul<Output = C>,
{
    let at_a = after_tax(one_a, tax_rate);
    let at_b = after_tax(one_b, tax_rate);
    let s1 = ebitda.mul_spec(at_a);
    let d1 = depreciation.mul_spec(at_b);
    let s2 = s1.add_spec(d1);
    let s3 = s2.sub_spec(capex);
    &&& one_a.sub_req(tax_rate)
    &&& one_b.sub_req(tax_rate)
    &&& ebitda.mul_req(at_a)
    &&& depreciation.mul_req(at_b)
    &&& s1.add_req(d1)
    &&& s2.sub_req(capex)
    &&& s3.sub_req(cwc)
}

/// Build-up: free cash flow to the firm from EBITDA.
pub fn fcff_ebitda<C>(
    ebitda: C,
    tax_rate: C,
    depreciation: C,
    capex: C,
    change_in_working_capital: C,
) -> (r: C)
    where
        C: Mul<Output = C> + Add<Output = C> + Sub<Output = C> + num_traits::One + Copy,
    requires
        ring_obeys::<C>() ==> forall|u: C, w: C|
            #![trigger is_mul_identity(u), is_mul_identity(w)]
            is_mul_identity(u) && is_mul_identity(w) ==> fcff_ebitda_defined(
                ebitda,
                tax_rate,
                depreciation,
                capex,
                change_in_working_capital,
                u,
                w,
            ),
        !ring_obeys::<C>() ==> ring_total::<C>(),
    ensures
        ring_obeys::<C>() ==> exists|u: C, w: C|
            #![trigger is_mul_identity(u), is_mul_identity(w)]
            is_mul_identity(u) && is_mul_identity(w) && r == fcff_ebitda_spec(
                ebitda,
                tax_rate,
                depreciation,
                capex,
                change_in_working_capital,
                u,
                w,
            ),
{
    let u1 = one::<C>();
    let u2 = one::<C>();
    proof {
        if ring_obeys::<C>() {
            assert(is_mul_identity(u1) && is_mul_identity(u2));
        }
    }
    (ebitda * (u1 - tax_rate)) + (depreciation * (u2 - tax_rate)) - capex - change_in_working_capital
}

/// WACC from the cost of equity: `coe·we + cop·wp + (1 − tax_rate)·cod·wd`.
pub open spec fn wacc_coe_spec<C>(coe: C, we: C, tax_rate: C, cod: C, wd: C, cop: C, wp: C, one: C) -> C
    where
        C: Add<Output = C> + Sub<Output = C> + Mul<Output = C>,
{
    coe.mul_spec(we).add_spec(cop.mul_spec(wp)).add_spec(after_tax(one, tax_rate).mul_spec(cod).mul_spec(wd))
}

/// Every operation of [`wacc_coe_spec`] is defined.
pub open spec fn wacc_coe_defined<C>(coe: C, we: C, tax_rate: C, cod: C, wd: C, cop: C, wp: C, one: C) -> bool
    where
        C: Add<Output = C> + Sub<Output = C> + Mul<Output = C>,
{
    let at = after_tax(one, tax_rate);
    let e = coe.mul_spec(we);
    let p = cop.mul_spec(wp);
    let d1 = at.mul_spec(cod);
    let d = d1.mul_spec(wd);
    &&& coe.mul_req(we)
    &&& cop.mul_req(wp)
    &&& e.add_req(p)
    &&& one.sub_req(tax_rate)
    &&& at.mul_req(cod)
    &&& d1.mul_req(wd)
    &&& e.add_spec(p).add_req(d)
}

/// Build-up: weighted average cost of capital from the cost of equity.
pub fn wacc_coe<C>(coe: C, we: C, tax_rate: C, cod: C, wd: C, cop: C, wp: C) -> (r: C)
    where
        C: Mul<Output = C> + Add<Output = C> + Sub<Output = C> + num_traits::One,
    requires
        ring_obeys::<C>() ==> forall|u: C| #[trigger] is_mul_identity(u) ==> wacc_coe_defined(
            coe,
            we,
            tax_rate,
            cod,
            wd,
            cop,
            wp,
            u,
        ),
        !ring_obeys::<C>() ==> ring_total::<C>(),
    ensures
        ring_obeys::<C>() ==> exists|u: C| #[trigger] is_mul_identity(u) && r == wacc_coe_spec(
            coe,
            we,
            tax_rate,
            cod,
            wd,
            cop,
            wp,
            u,
        ),
{
    let u = one::<C>();
    proof {
        if ring_obeys::<C>() {
            assert(is_mul_identity(u));
        }
    }
    (coe * we) + (cop * wp) + ((u - tax_rate) * cod * wd)
}

/// WACC from beta: `(rfr + equity_beta·mrp)·we + cop·wp + (1 − tax_rate)·cod·wd`.
pub open spec fn wacc_beta_spec<C>(
    equity_beta: C,
    rfr: C,
    mrp: C,
    we: C,
    tax_rate: C,
    cod: C,
    wd: C,
    cop: C,
    wp: C,
    one: C,
) -> C
    where
        C: Add<Output = C> + Sub<Output = C> + Mul<Output = C>,
{
    wacc_coe_spec(rfr.add_spec(equity_beta.mul_spec(mrp)), we, tax_rate, cod, wd, cop, wp, one)
}

/// Build-up: weighted average cost of capital with the cost of equity by CAPM.
#[allow(clippy::too_many_arguments)]
pub fn wacc_beta<C>(
    equity_beta: C,
    rfr: C,
    mrp: C,
    we: C,
    tax_rate: C,
    cod: C,
    wd: C,
    cop: C,
    wp: C,
) -> (r: C)
    where
        C: Mul<Output = C> + Add<Output = C> + Sub<Output = C> + num_traits::One,
    requires
        ring_obeys::<C>() ==> equity_beta.mul_req(mrp) && rfr.add_req(equity_beta.mul_spec(mrp)),
        ring_obeys::<C>() ==> forall|u: C| #[trigger] is_mul_identity(u) ==> wacc_coe_defined(
            rfr.add_spec(equity_beta.mul_spec(mrp)),
            we,
            tax_rate,
            cod,
            wd,
            cop,
            wp,
            u,
        ),
        !ring_obeys::<C>() ==> ring_total::<C>(),
    ensures
        ring_obeys::<C>() ==> exists|u: C| #[trigger] is_mul_identity(u) && r == wacc_beta_spec(
            equity_beta,
            rfr,
            mrp,
            we,
            tax_rate,
            cod,
            wd,
            cop,
            wp,
            u,
        ),
{
    let u = one::<C>();
    proof {
        if ring_obeys::<C>() {
            assert(is_mul_identity(u));
        }
    }
    ((rfr + (equity_beta * mrp)) * we) + (cop * wp) + ((u - tax_rate) * cod * wd)
}

/// Verus knows all four operations of `C`.
pub open spec fn field_obeys<C>() -> bool
    where
        C: Add<Output = C> + Sub<Output = C> + Mul<Output = C> + Div<Output = C>,
{
    ring_obeys::<C>() && C::obeys_div_spec()
}

/// All four operations of `C` are defined on all values.
pub open spec fn field_total<C>() -> bool
    where
        C: Add<Output = C> + Sub<Output = C> + Mul<Output = C> + Div<Output = C>,
{
    ring_total::<C>() && forall|a: C, b: C| #[trigger] a.div_req(b)
}

/// The levering factor `1 + (debt / equity)·(1 − tax_rate)`, with the unit of
/// the sum (`one_a`) and of the after-tax share (`one_b`) given apart.
pub open spec fn levering_factor<C>(equity: C, debt: C, tax_rate: C, one_a: C, one_b: C) -> C
    where
        C: Add<Output = C> + Sub<Output = C> + Mul<Output = C> + Div<Output = C>,
{
    one_a.add_spec(debt.div_spec(equity).mul_spec(after_tax(one_b, tax_rate)))
}

/// Every operation of [`levering_factor`] is defined.
pub open spec fn levering_factor_defined<C>(equity: C, debt: C, tax_rate: C, one_a: C, one_b: C) -> bool
    where
        C: Add<Output = C> + Sub<Output = C> + Mul<Output = C> + Div<Output = C>,
{
    let de = debt.div_spec(equity);
    let at = after_tax(one_b, tax_rate);
    &&& debt.div_req(equity)
    &&& one_b.sub_req(tax_rate)
    &&& de.mul_req(at)
    &&& one_a.add_req(de.mul_spec(at))
}

/// Build-up: equity (levered) beta, `asset_beta·(1 + (debt / equity)·(1 − tax_rate))`.
pub fn equity_beta<C>(equity: C, debt: C, asset_beta: C, tax_rate: C) -> (r: C)
    where
        C: Mul<Output = C> + Div<Output = C> + Add<Output = C> + Sub<Output = C> + num_traits::One,
    requires
        field_obeys::<C>() ==> forall|u: C, w: C|
            #![trigger is_mul_identity(u), is_mul_identity(w)]
            is_mul_identity(u) && is_mul_identity(w) ==> levering_factor_defined(equity, debt, tax_rate, u, w)
                && asset_beta.mul_req(levering_factor(equity, debt, tax_rate, u, w)),
        !field_obeys::<C>() ==> field_total::<C>(),
    ensures
        field_obeys::<C>() ==> exists|u: C, w: C|
            #![trigger is_mul_identity(u), is_mul_identity(w)]
            is_mul_identity(u) && is_mul_identity(w) && r == asset_beta.mul_spec(
                levering_factor(equity, debt, tax_rate, u, w),
            ),
{
    let u1 = one::<C>();
    let u2 = one::<C>();
    proof {
        if field_obeys::<C>() {
            assert(is_mul_identity(u1) && is_mul_identity(u2));
        }
    }
    asset_beta * (u1 + ((debt / equity) * (u2 - tax_rate)))
}

/// Build-up: asset (unlevered) beta, `equity_beta / (1 + (debt / equity)·(1 − tax_rate))`.
pub fn asset_beta<C>(equity: C, debt: C, equity_beta: C, tax_rate: C) -> (r: C)
    where
        C: Mul<Output = C> + Div<Output = C> + Add<Output = C> + Sub<Output = C> + num_traits::One,
    requires
        field_obeys::<C>() ==> forall|u: C, w: C|
            #![trigger is_mul_identity(u), is_mul_identity(w)]
            is_mul_identity(u) && is_mul_identity(w) ==> levering_factor_defined(equity, debt, tax_rate, u, w)
                && equity_beta.div_req(levering_factor(equity, debt, tax_rate, u, w)),
        !field_obeys::<C>() ==> field_total::<C>(),
    ensures
        field_obeys::<C>() ==> exists|u: C, w: C|
            #![trigger is_mul_identity(u), is_mul_identity(w)]
            is_mul_identity(u) && is_mul_identity(w) && r == equity_beta.div_spec(
                levering_factor(equity, debt, tax_rate, u, w),
            ),
{
    let u1 = one::<C>();
    let u2 = one::<C>();
    proof {
        if field_obeys::<C>() {
            assert(is_mul_identity(u1) && is_mul_identity(u2));
        }
    }
    equity_beta / (u1 + ((debt / equity) * (u2 - tax_rate)))
}

} // verus!
