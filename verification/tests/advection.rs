use gas_thermo::advection::{linearconv_cfl, linearconv_dummy, make_filename};

#[test]
fn dummy_run_configuration() {
    let cfg = linearconv_dummy(41);
    assert_eq!(cfg.nx, 41);
    assert_eq!(cfg.nt, 20);
    assert_eq!((cfg.c.num, cfg.c.den), (1, 1));
    assert_eq!((cfg.length.num, cfg.length.den), (2, 1));
    assert_eq!((cfg.dt.num, cfg.dt.den), (1, 40));
    assert_eq!((cfg.dx.num, cfg.dx.den), (2, 40));
    assert_eq!(cfg.base, "results/step_03_{name}_dummy_nx{nx}.png");
}

#[test]
fn cfl_run_configuration() {
    let cfg = linearconv_cfl(61);
    assert_eq!(cfg.nx, 61);
    // floor(tend / (sigma * dx)) with tend = 1/2, sigma = 1/2,
    // dx = 2/60 is exactly 30.
    assert_eq!(cfg.nt, 30);
    assert_eq!((cfg.dt.num, cfg.dt.den), (1, 60));
    assert_eq!((cfg.dx.num, cfg.dx.den), (2, 60));
    assert_eq!(cfg.base, "results/step_03_{name}_cfl_nx{nx}.png");

    let cfg = linearconv_cfl(41);
    assert_eq!(cfg.nt, 20);
    assert_eq!((cfg.dt.num, cfg.dt.den), (1, 40));
}

#[test]
fn filename_template_substitution() {
    let name = make_filename("results/step_03_{name}_dummy_nx{nx}.png", 41, "initial");
    assert_eq!(name, "results/step_03_initial_dummy_nx41.png");
    let name = make_filename("results/step_03_{name}_cfl_nx{nx}.png", 85, "final");
    assert_eq!(name, "results/step_03_final_cfl_nx85.png");
}

#[test]
fn filename_without_placeholders_is_unchanged() {
    assert_eq!(make_filename("plain.png", 7, "x"), "plain.png");
}
