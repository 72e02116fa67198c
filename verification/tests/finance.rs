use airborne::finance::ratios::{
    a_t, acid, asset_beta, cash, coe, current, d_r, d_t_e, div_y, ebit_i_c, equity_beta, fcff_cfo,
    fcff_ebit, fcff_ebitda, fcff_ni, gross_m, inv_t, mrp, net_m, operating_m, p_t_b, p_t_e, quick,
    r_o_a, r_o_e, rec_t, wacc_beta, wacc_coe,
};

#[test]
fn current_ratio_test() {
    let c_01 = current(2.0, 4.0);
    assert_eq!(c_01, 0.5);
    let n1 = 300.0000;
    let n2 = 400.000;
    let c_02 = current(n1, n2);
    assert_eq!(c_02, 0.75);
}

#[test]
fn single_division_ratios() {
    assert_eq!(cash(9u32, 3u32), 3);
    assert_eq!(gross_m(40i64, 200), 0);
    assert_eq!(operating_m(1.0, 4.0), 0.25);
    assert_eq!(net_m(30.0, 120.0), 0.25);
    assert_eq!(r_o_a(5.0, 50.0), 0.1);
    assert_eq!(r_o_e(6.0, 30.0), 0.2);
    assert_eq!(d_t_e(300u64, 100u64), 3);
    assert_eq!(d_r(1.0, 8.0), 0.125);
    assert_eq!(ebit_i_c(90i32, 30), 3);
    assert_eq!(inv_t(500u16, 100), 5);
    assert_eq!(rec_t(12.0, 3.0), 4.0);
    assert_eq!(a_t(7.0, 14.0), 0.5);
    assert_eq!(p_t_e(100.0, 5.0), 20.0);
    assert_eq!(p_t_b(30u8, 15u8), 2);
    assert_eq!(div_y(2.0, 50.0), 0.04);
}

#[test]
fn liquidity_ratios() {
    assert_eq!(quick(10u32, 2, 4), 2);
    assert_eq!(quick(300.0, 100.0, 400.0), 0.5);
    assert_eq!(acid(1u32, 2, 3, 2), 3);
    assert_eq!(acid(100.0, 50.0, 50.0, 400.0), 0.5);
}

#[test]
fn capm_build_ups() {
    assert_eq!(mrp(11i32, 4), 7);
    assert_eq!(coe(1u32, 2, 3), 7);
    assert_eq!(coe(0.03, 1.5, 0.06), 0.03 + 1.5 * 0.06);
}

#[test]
fn fcff_build_ups_use_unit_one() {
    // cfo + interest·(1 − t) − capex
    assert_eq!(fcff_cfo(10i64, 2, 0, 3), 9);
    assert_eq!(fcff_cfo(100.0, 10.0, 0.25, 20.0), 87.5);
    // ni + ncc + interest·(1 − t) − capex − Δwc
    assert_eq!(fcff_ni(50i64, 10, 4, 0, 20, 5), 39);
    // ebit·(1 − t) + dep − capex − Δwc
    assert_eq!(fcff_ebit(100.0, 0.5, 10.0, 20.0, 5.0), 35.0);
    // ebitda·(1 − t) + dep·(1 − t) − capex − Δwc
    assert_eq!(fcff_ebitda(100.0, 0.5, 10.0, 20.0, 5.0), 30.0);
}

#[test]
fn wacc_build_ups() {
    // coe·we + cop·wp + (1 − t)·cod·wd
    assert_eq!(wacc_coe(10i64, 2, 0, 3, 4, 5, 6), 20 + 30 + 12);
    assert_eq!(wacc_beta(2i64, 1, 3, 2, 0, 3, 4, 5, 6), 14 + 30 + 12);
}

#[test]
fn beta_levering_round_trip() {
    let levered = equity_beta(100.0, 50.0, 1.0, 0.0);
    assert_eq!(levered, 1.5);
    let unlevered = asset_beta(100.0, 50.0, levered, 0.0);
    assert_eq!(unlevered, 1.0);
    assert_eq!(equity_beta(2i64, 4, 3, 0), 9);
    assert_eq!(asset_beta(2i64, 4, 9, 0), 3);
}
