use schismrs_hgrid::DepthConvention;

#[test]
fn flip_turns_the_convention_over() {
    assert_eq!(DepthConvention::PositiveDown.flip(), DepthConvention::PositiveUp);
    assert_eq!(DepthConvention::PositiveUp.flip(), DepthConvention::PositiveDown);
}

#[test]
fn default_is_positive_down() {
    assert_eq!(DepthConvention::default(), DepthConvention::PositiveDown);
}
