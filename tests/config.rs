use ecdsa_circuit::config::EcdsaConfig;

#[test]
fn chip_configs_carry_the_shared_wiring() {
    let config = EcdsaConfig::new(17u32, (4usize, 5usize));
    let ecc = config.ecc_chip_config();
    let integer = config.integer_chip_config();
    assert_eq!(ecc.range_config, 17);
    assert_eq!(ecc.main_gate_config, (4, 5));
    assert_eq!(integer.range_config, 17);
    assert_eq!(integer.main_gate_config, (4, 5));
}
