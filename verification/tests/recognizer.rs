use digit_recognizer::{
    BasicClassifier, Classifier, Distance, EuclideanDistance, EvalError, Evaluator,
    ManhattanDistance, Observation, PredictError,
};

#[test]
fn test_observation_new() {
    let observation = Observation::new("5", &[0, 0, 0, 0, 0, 0, 0, 0, 0, 0]);
    assert_eq!(observation.label, "5");
    assert_eq!(observation.pixels, vec![0, 0, 0, 0, 0, 0, 0, 0, 0, 0]);
}

#[test]
fn test_manhattan_distance_between() {
    let distance = ManhattanDistance {};
    let pixels1 = vec![0, 0, 0, 0, 0];
    let pixels2 = vec![1, 1, 1, 1, 1];
    assert_eq!(distance.between(&pixels1, &pixels2), 5);
}

#[test]
fn test_euclidean_distance_between() {
    let distance = EuclideanDistance {};
    let pixels1 = vec![0, 0, 0, 0, 0];
    let pixels2 = vec![3, 4, 5, 6, 7];
    assert_eq!(distance.between(&pixels1, &pixels2), 135);
}

#[test]
fn test_basic_classifier_train() {
    let mut classifier = BasicClassifier {
        training_set: vec![],
        distance: ManhattanDistance {},
    };
    let training_set = vec![
        Observation::new("0", &[0, 0, 0, 0, 0]),
        Observation::new("1", &[1, 1, 1, 1, 1]),
    ];
    classifier.train(&training_set);

    assert_eq!(classifier.training_set, training_set);
}

#[test]
fn test_basic_classifier_predict() {
    let classifier = BasicClassifier {
        training_set: vec![
            Observation::new("0", &[0, 0, 0, 0, 0]),
            Observation::new("1", &[1, 1, 1, 1, 1]),
        ],
        distance: ManhattanDistance {},
    };
    let pixels = vec![0, 0, 0, 0, 0];
    assert_eq!(classifier.predict(&pixels), "0");
}

#[test]
fn test_evaluator_percent_correct() {
    let evaluator = Evaluator {};
    let training_set = vec![
        Observation::new("0", &[0, 0, 0, 0, 0]),
        Observation::new("1", &[1, 1, 1, 1, 1]),
    ];
    let validation_set = vec![
        Observation::new("0", &[0, 0, 0, 0, 0]),
        Observation::new("1", &[1, 1, 1, 1, 1]),
    ];
    let mut classifier = BasicClassifier {
        training_set: vec![],
        distance: ManhattanDistance {},
    };

    classifier.train(&training_set);

    let accuracy = evaluator.percent_correct(&validation_set, &classifier).unwrap();
    assert_eq!(accuracy.correct as f64 / accuracy.total as f64, 1.0);
}

#[test]
fn test_evaluator_score() {
    let evaluator = Evaluator {};
    let training_set = vec![
        Observation::new("0", &[0, 0, 0, 0, 0]),
        Observation::new("1", &[1, 1, 1, 1, 1]),
    ];
    let observation = Observation::new("0", &[0, 0, 0, 0, 0]);
    let mut classifier = BasicClassifier {
        training_set: vec![],
        distance: ManhattanDistance {},
    };

    classifier.train(&training_set);

    assert_eq!(evaluator.score(&observation, &classifier), 1);
}

#[test]
fn manhattan_self_distance_is_zero() {
    let distance = ManhattanDistance {};
    let pixels = vec![12, -7, 0, 255, 3];
    assert_eq!(distance.between(&pixels, &pixels), 0);
}

#[test]
fn euclidean_self_distance_is_zero() {
    let distance = EuclideanDistance {};
    let pixels = vec![12, -7, 0, 255, 3];
    assert_eq!(distance.between(&pixels, &pixels), 0);
}

#[test]
fn manhattan_is_symmetric() {
    let distance = ManhattanDistance {};
    let pixels1 = vec![3, -4, 7, 100];
    let pixels2 = vec![10, 2, -5, 0];
    assert_eq!(
        distance.between(&pixels1, &pixels2),
        distance.between(&pixels2, &pixels1)
    );
}

#[test]
fn euclidean_is_symmetric() {
    let distance = EuclideanDistance {};
    let pixels1 = vec![3, -4, 7, 100];
    let pixels2 = vec![10, 2, -5, 0];
    assert_eq!(
        distance.between(&pixels1, &pixels2),
        distance.between(&pixels2, &pixels1)
    );
}

#[test]
fn manhattan_distance_with_negative_pixels() {
    let distance = ManhattanDistance {};
    assert_eq!(distance.between(&[-5, -1], &[5, 1]), 12);
}

#[test]
fn distances_over_the_full_pixel_range() {
    let manhattan = ManhattanDistance {};
    let euclidean = EuclideanDistance {};
    let pixels1 = vec![i32::MAX];
    let pixels2 = vec![i32::MIN];
    assert_eq!(manhattan.between(&pixels1, &pixels2), 4294967295);
    assert_eq!(euclidean.between(&pixels1, &pixels2), 4294967295 * 4294967295);
}

#[test]
fn predict_returns_label_of_exact_match_under_both_metrics() {
    let training_set = vec![
        Observation::new("7", &[80, 0, 20]),
        Observation::new("3", &[5, 6, 7]),
        Observation::new("9", &[0, 200, 1]),
    ];
    let query = vec![5, 6, 7];

    let mut manhattan_classifier = BasicClassifier {
        training_set: vec![],
        distance: ManhattanDistance {},
    };
    manhattan_classifier.train(&training_set);
    assert_eq!(manhattan_classifier.predict(&query), "3");

    let mut euclidean_classifier = BasicClassifier {
        training_set: vec![],
        distance: EuclideanDistance {},
    };
    euclidean_classifier.train(&training_set);
    assert_eq!(euclidean_classifier.predict(&query), "3");
}

#[test]
fn predict_tie_breaks_to_the_first_training_observation() {
    // both observations are at distance 1 from the query, under either metric
    let classifier = BasicClassifier {
        training_set: vec![
            Observation::new("a", &[0]),
            Observation::new("b", &[2]),
        ],
        distance: ManhattanDistance {},
    };
    assert_eq!(classifier.predict(&[1]), "a");

    let classifier = BasicClassifier {
        training_set: vec![
            Observation::new("a", &[0]),
            Observation::new("b", &[2]),
        ],
        distance: EuclideanDistance {},
    };
    assert_eq!(classifier.predict(&[1]), "a");
}

#[test]
fn metric_choice_can_change_the_prediction() {
    // distances to the query [0, 0]: Manhattan 6 vs 5, Euclidean 18 vs 25
    let training_set = vec![
        Observation::new("diagonal", &[3, 3]),
        Observation::new("axis", &[5, 0]),
    ];
    let query = vec![0, 0];

    let manhattan_classifier = BasicClassifier {
        training_set: training_set.clone(),
        distance: ManhattanDistance {},
    };
    assert_eq!(manhattan_classifier.predict(&query), "axis");

    let euclidean_classifier = BasicClassifier {
        training_set,
        distance: EuclideanDistance {},
    };
    assert_eq!(euclidean_classifier.predict(&query), "diagonal");
}

#[test]
fn checked_predict_rejects_an_empty_training_set() {
    let classifier: BasicClassifier<ManhattanDistance> = BasicClassifier {
        training_set: vec![],
        distance: ManhattanDistance {},
    };
    assert_eq!(
        classifier.checked_predict(&[1, 2, 3]),
        Err(PredictError::EmptyTrainingSet)
    );
}

#[test]
fn checked_predict_rejects_mismatched_pixel_counts() {
    let classifier = BasicClassifier {
        training_set: vec![Observation::new("0", &[0, 0, 0])],
        distance: ManhattanDistance {},
    };
    assert_eq!(
        classifier.checked_predict(&[0, 0]),
        Err(PredictError::DimensionMismatch)
    );
}

#[test]
fn checked_predict_returns_the_nearest_label() {
    let classifier = BasicClassifier {
        training_set: vec![
            Observation::new("0", &[0, 0, 0]),
            Observation::new("1", &[9, 9, 9]),
        ],
        distance: ManhattanDistance {},
    };
    assert_eq!(classifier.checked_predict(&[8, 9, 9]), Ok("1".to_string()));
}

#[test]
fn percent_correct_rejects_an_empty_validation_set() {
    let evaluator = Evaluator {};
    let classifier = BasicClassifier {
        training_set: vec![Observation::new("0", &[0, 0])],
        distance: ManhattanDistance {},
    };
    assert_eq!(
        evaluator.percent_correct(&[], &classifier),
        Err(EvalError::EmptyValidationSet)
    );
}

#[test]
fn percent_correct_counts_only_the_matches() {
    let evaluator = Evaluator {};
    let classifier = BasicClassifier {
        training_set: vec![
            Observation::new("0", &[0, 0]),
            Observation::new("1", &[9, 9]),
        ],
        distance: ManhattanDistance {},
    };
    let validation_set = vec![
        Observation::new("0", &[1, 0]),
        Observation::new("5", &[9, 8]),
    ];
    let accuracy = evaluator.percent_correct(&validation_set, &classifier).unwrap();
    assert_eq!(accuracy.correct, 1);
    assert_eq!(accuracy.total, 2);
}

#[test]
fn percent_correct_is_invariant_to_evaluation_order() {
    let evaluator = Evaluator {};
    let classifier = BasicClassifier {
        training_set: vec![
            Observation::new("0", &[0, 0]),
            Observation::new("1", &[9, 9]),
        ],
        distance: ManhattanDistance {},
    };
    let first = Observation::new("0", &[1, 1]);
    let second = Observation::new("1", &[8, 8]);
    let third = Observation::new("3", &[5, 5]);

    let one_order = vec![
        Observation::new(&first.label, &first.pixels),
        Observation::new(&second.label, &second.pixels),
        Observation::new(&third.label, &third.pixels),
    ];
    let other_order = vec![third, second, first];

    assert_eq!(
        evaluator.percent_correct(&one_order, &classifier),
        evaluator.percent_correct(&other_order, &classifier)
    );
}
