use speciesnet::classifier::{
    map_labels_to_classifications, pick_top_n_from, top_positions, Classification,
};
use speciesnet::geofence::rollup::SCORE_UNITS_PER_ONE;

fn units(score: f64) -> u64 {
    (score * SCORE_UNITS_PER_ONE as f64).round() as u64
}

fn labels() -> Vec<String> {
    vec![
        "lion".to_string(),
        "elephant".to_string(),
        "cat".to_string(),
        "dog".to_string(),
        "bird".to_string(),
        "bat".to_string(),
    ]
}

fn scores() -> Vec<u64> {
    vec![
        units(0.8117243501589582),
        units(0.10985494982166831),
        units(0.04041337573881406),
        units(0.024511951410569412),
        units(0.009017443373279692),
        units(0.004477929496710358),
    ]
}

fn classifications() -> Vec<Classification> {
    let labels = labels();
    let scores = scores();
    vec![
        Classification::new(labels[0].clone(), scores[0]),
        Classification::new(labels[1].clone(), scores[1]),
        Classification::new(labels[2].clone(), scores[2]),
        Classification::new(labels[3].clone(), scores[3]),
        Classification::new(labels[4].clone(), scores[4]),
        Classification::new(labels[5].clone(), scores[5]),
    ]
}

fn pairs(classifications: &[Classification]) -> Vec<(String, u64)> {
    classifications.iter().map(|c| (c.label().clone(), *c.score())).collect()
}

#[test]
fn test_map_labels_to_classifications_fn() {
    let expected = classifications();

    let result = map_labels_to_classifications(&labels(), &scores());

    assert_eq!(pairs(&result), pairs(&expected))
}

#[test]
fn test_pick_top_n_from_fn() {
    let classifications = classifications();
    let labels = labels();
    let scores = scores();
    let expected: Vec<Classification> = vec![
        Classification::new(labels[0].clone(), scores[0]),
        Classification::new(labels[1].clone(), scores[1]),
        Classification::new(labels[2].clone(), scores[2]),
    ];

    let result = pick_top_n_from(classifications, 3);
    assert_eq!(pairs(&result), pairs(&expected));
}

#[test]
fn labels_and_scores_are_paired_up_to_the_shorter() {
    let result = map_labels_to_classifications(&labels(), &[7, 8]);
    assert_eq!(pairs(&result), vec![("lion".to_string(), 7), ("elephant".to_string(), 8)]);
    let result = map_labels_to_classifications(&labels()[..1], &[7, 8]);
    assert_eq!(pairs(&result), vec![("lion".to_string(), 7)]);
    assert!(map_labels_to_classifications(&[], &[7, 8]).is_empty());
}

#[test]
fn the_best_come_first() {
    assert_eq!(top_positions(&[1, 5, 3, 4, 2], 3), vec![1, 3, 2]);
    assert_eq!(top_positions(&[1, 5, 3, 4, 2], 5), vec![1, 3, 2, 4, 0]);
    assert_eq!(top_positions(&[1, 5, 3, 4, 2], 9), vec![1, 3, 2, 4, 0]);
    assert_eq!(top_positions(&[1, 5, 3, 4, 2], 1), vec![1]);
    assert_eq!(top_positions(&[1, 5, 3, 4, 2], 0), Vec::<usize>::new());
    assert_eq!(top_positions(&[], 3), Vec::<usize>::new());
    assert_eq!(top_positions(&[0, u64::MAX], 2), vec![1, 0]);
}

#[test]
fn among_equal_scores_the_first_comes_first() {
    assert_eq!(top_positions(&[2, 2, 2], 2), vec![0, 1]);
    assert_eq!(top_positions(&[1, 3, 1, 3, 2, 3], 4), vec![1, 3, 5, 4]);
    assert_eq!(top_positions(&[1, 3, 1, 3, 2, 3], 6), vec![1, 3, 5, 4, 0, 2]);
    let tied = vec![
        Classification::new("a".to_string(), 1),
        Classification::new("b".to_string(), 2),
        Classification::new("c".to_string(), 2),
        Classification::new("d".to_string(), 1),
    ];
    assert_eq!(
        pairs(&pick_top_n_from(tied, 3)),
        vec![("b".to_string(), 2), ("c".to_string(), 2), ("a".to_string(), 1)]
    );
}

#[test]
fn picking_agrees_with_a_stable_sort() {
    let mut seed: u64 = 0x2545F4914F6CDD1D;
    for round in 0..200 {
        let len = (round % 13) as usize;
        let scores: Vec<u64> = (0..len)
            .map(|_| {
                seed ^= seed << 13;
                seed ^= seed >> 7;
                seed ^= seed << 17;
                seed % 5
            })
            .collect();
        let mut sorted: Vec<usize> = (0..len).collect();
        sorted.sort_by(|a, b| scores[*b].cmp(&scores[*a]));
        for n in 0..len + 2 {
            let expected: Vec<usize> = sorted.iter().take(n).cloned().collect();
            assert_eq!(top_positions(&scores, n), expected);
        }
    }
}
