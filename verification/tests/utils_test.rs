use conv_nn::fx::FX_ONE;
use conv_nn::utils::{outer, SavingStrategy};

#[test]
fn test_outer_product() {
    let x = vec![FX_ONE, 2 * FX_ONE, 3 * FX_ONE];
    let y = vec![4 * FX_ONE, 5 * FX_ONE];

    let result = outer(x, y);

    let expected = vec![
        vec![4 * FX_ONE, 5 * FX_ONE],
        vec![8 * FX_ONE, 10 * FX_ONE],
        vec![12 * FX_ONE, 15 * FX_ONE],
    ];

    assert_eq!(result, expected);
}

#[test]
fn test_saving_strategy_enum() {
    let strategy1 = SavingStrategy::EveryEpoch(true);
    let strategy2 = SavingStrategy::EveryNthEpoch(false, FX_ONE / 2);
    let strategy3 = SavingStrategy::BestTrainingAccuracy(true);
    let strategy4 = SavingStrategy::BestTestingAccuracy(false);
    let strategy5 = SavingStrategy::Never;

    match strategy1 {
        SavingStrategy::EveryEpoch(full_save) => assert!(full_save),
        _ => panic!("Expected EveryEpoch"),
    }

    match strategy2 {
        SavingStrategy::EveryNthEpoch(full_save, n) => {
            assert!(!full_save);
            assert_eq!(n, FX_ONE / 2);
        }
        _ => panic!("Expected EveryNthEpoch"),
    }

    match strategy3 {
        SavingStrategy::BestTrainingAccuracy(full_save) => assert!(full_save),
        _ => panic!("Expected BestTrainingAccuracy"),
    }

    match strategy4 {
        SavingStrategy::BestTestingAccuracy(full_save) => assert!(!full_save),
        _ => panic!("Expected BestTestingAccuracy"),
    }

    match strategy5 {
        SavingStrategy::Never => {}
        _ => panic!("Expected Never"),
    }
}
