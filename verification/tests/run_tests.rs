use rs_diffcopy::comparator::calculate_stats;
use rs_diffcopy::run::two_way_exit_code;

#[test]
fn test_empty_directories() {
    let stats = calculate_stats(&vec![]);
    assert_eq!(two_way_exit_code(&stats), 2);
}
