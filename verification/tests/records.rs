use std::path::PathBuf;

use speciesnet::io::{Instance, Instances};
use speciesnet::letterbox::{LetterboxOptions, LetterboxOptionsBuilder};
use speciesnet::model_info::{ModelInfo, ModelType};
use speciesnet::shape::Shape;

#[test]
fn shapes_have_a_width_and_a_height() {
    assert_eq!(Shape::Square(640).width(), 640);
    assert_eq!(Shape::Square(640).height(), 640);
    assert_eq!(Shape::Rectangular(1280, 720).width(), 1280);
    assert_eq!(Shape::Rectangular(1280, 720).height(), 720);
    assert_eq!(Shape::Rectangular(0, u32::MAX).height(), u32::MAX);
}

#[test]
fn a_builder_starts_from_the_defaults() {
    let options = LetterboxOptions::builder().build();
    assert_eq!(options.shape(), Shape::Square(640));
    assert!(options.scale_up());
    assert!(options.auto());
    assert_eq!(options.stride(), 64);
    assert!(!options.scale_fill());
    assert_eq!(options.color(), [114, 114, 114]);

    let same = LetterboxOptionsBuilder::default().build();
    assert_eq!(same.shape(), options.shape());
    assert_eq!(same.stride(), options.stride());
}

#[test]
fn a_builder_sets_one_value_at_a_time() {
    let mut builder = LetterboxOptions::builder();
    let options = builder.shape(Shape::Square(1280)).build();
    assert_eq!(options.shape(), Shape::Square(1280));
    assert_eq!(options.stride(), 64);
    assert!(options.auto());

    let options = LetterboxOptions::builder()
        .shape(Shape::Rectangular(4, 3))
        .scale_up(false)
        .auto(false)
        .stride(32)
        .scale_fill(true)
        .color([1, 2, 3])
        .build();
    assert_eq!(options.shape(), Shape::Rectangular(4, 3));
    assert!(!options.scale_up());
    assert!(!options.auto());
    assert_eq!(options.stride(), 32);
    assert!(options.scale_fill());
    assert_eq!(options.color(), [1, 2, 3]);

    // The builder keeps what it was given after it has built.
    let mut builder = LetterboxOptions::builder();
    builder.stride(16);
    let first = builder.build();
    builder.stride(8);
    assert_eq!(first.stride(), 16);
    assert_eq!(builder.build().stride(), 8);
}

#[test]
fn instances_keep_what_they_are_given() {
    let instance = Instance::new(
        PathBuf::from("a/b.jpg"),
        Some("KEN".to_string()),
        Some("30".to_string()),
    );
    assert_eq!(instance.file_path(), &PathBuf::from("a/b.jpg"));
    assert_eq!(instance.country(), Some("KEN"));
    assert_eq!(instance.admin1_region(), Some("30"));

    let bare = Instance::from_path_buf(PathBuf::from("c.png"));
    assert_eq!(bare.file_path(), &PathBuf::from("c.png"));
    assert_eq!(bare.country(), None);
    assert_eq!(bare.admin1_region(), None);

    let all = Instances::new(vec![instance, bare]);
    assert_eq!(all.instances().len(), 2);
    assert_eq!(all.instances()[0].country(), Some("KEN"));
    assert_eq!(all.instances()[1].file_path(), &PathBuf::from("c.png"));
}

#[test]
fn model_info_keeps_what_it_is_given() {
    let info = ModelInfo::new(
        "4.0.1a".to_string(),
        ModelType::AlwaysCrop,
        PathBuf::from("classifier.onnx"),
        PathBuf::from("labels.txt"),
        PathBuf::from("detector.onnx"),
        PathBuf::from("taxonomy.txt"),
        PathBuf::from("geofence.json"),
    );
    assert_eq!(info.version(), "4.0.1a");
    assert_eq!(info.model_type(), ModelType::AlwaysCrop);
    assert_eq!(info.classifier(), &PathBuf::from("classifier.onnx"));
    assert_eq!(info.classifier_labels(), &PathBuf::from("labels.txt"));
    assert_eq!(info.detector(), &PathBuf::from("detector.onnx"));
    assert_eq!(info.taxonomy(), &PathBuf::from("taxonomy.txt"));
    assert_eq!(info.geofence(), &PathBuf::from("geofence.json"));
}
