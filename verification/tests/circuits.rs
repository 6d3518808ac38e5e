use atlas::circuits::{
    ConstraintEstimate, ATLAS_CONSTRAINTS, MIMC_CONSTRAINTS, POSEIDON_CONSTRAINTS, SHA256_CONSTRAINTS,
};

#[test]
fn atlas_fewer_than_mimc() {
    assert!(ATLAS_CONSTRAINTS < MIMC_CONSTRAINTS);
}

#[test]
fn atlas_fewer_than_sha256() {
    assert!(ATLAS_CONSTRAINTS < SHA256_CONSTRAINTS);
}

#[test]
fn totals_scale_with_invocations() {
    assert_eq!(ConstraintEstimate::atlas(1024).total(), 30 * 1024);
    assert_eq!(ConstraintEstimate::mimc(1).total(), 351);
    assert_eq!(ConstraintEstimate::poseidon(2).total(), 1896);
    assert_eq!(ConstraintEstimate::sha256(32768).total(), 7_095 * 32768);
    assert_eq!(ConstraintEstimate::atlas(0).total(), 0);
}

#[test]
fn constructors_set_labels() {
    assert_eq!(ConstraintEstimate::atlas(3).label, "ATLAS");
    assert_eq!(ConstraintEstimate::mimc(3).label, "MiMC");
    assert_eq!(ConstraintEstimate::poseidon(3).label, "Poseidon");
    assert_eq!(ConstraintEstimate::sha256(3).label, "SHA-256");
    assert_eq!(ConstraintEstimate::poseidon(3).per_invoke, POSEIDON_CONSTRAINTS);
    assert_eq!(ConstraintEstimate::sha256(3).num_invokes, 3);
}
