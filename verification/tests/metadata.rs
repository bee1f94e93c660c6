use cooklang_bindings::component::Timer;
use cooklang_bindings::metadata::{text_metadata_entries, NameAndUrl, RecipeTime, Servings, StdKey};

#[test]
fn only_entries_with_text_key_and_value_are_kept() {
    let entries = vec![
        (Some("title".to_string()), Some("Pancakes".to_string())),
        (Some("servings".to_string()), None),
        (None, Some("orphan".to_string())),
        (Some("author".to_string()), Some("Ann".to_string())),
    ];
    let kept = text_metadata_entries(&entries);
    assert_eq!(
        kept,
        vec![
            ("title".to_string(), "Pancakes".to_string()),
            ("author".to_string(), "Ann".to_string())
        ]
    );
}

#[test]
fn no_metadata_entries() {
    assert!(text_metadata_entries(&vec![]).is_empty());
}

#[test]
fn timer_name_defaults_to_empty() {
    let t: Timer<f64> = Timer::from_parts(&None, None);
    assert_eq!(t.name.as_deref(), Some(""));
    let named: Timer<f64> = Timer::from_parts(&Some("boil".to_string()), None);
    assert_eq!(named.name.as_deref(), Some("boil"));
}

#[test]
fn metadata_values_clone() {
    let s = Servings::Text { value: "two".to_string() };
    match s.clone() {
        Servings::Text { value } => assert_eq!(value, "two"),
        Servings::Number { .. } => panic!("wrong variant"),
    }
    let n = NameAndUrl { name: Some("Ann".to_string()), url: None };
    assert_eq!(n.clone().name.as_deref(), Some("Ann"));
    let t = RecipeTime::Composed { prep_time: Some(5), cook_time: None };
    assert_eq!(t, RecipeTime::Composed { prep_time: Some(5), cook_time: None });
    assert_eq!(StdKey::Title, StdKey::Title);
}

fn parsed_metadata() -> cooklang::metadata::Metadata {
    let parser =
        cooklang::CooklangParser::new(cooklang::Extensions::all(), cooklang::Converter::empty());
    let source = "---\ntitle: Pancakes\nservings: 4\ntags: [breakfast, sweet]\nauthor: Ann\n---\nMix @flour{100%g}.";
    parser.parse(source).unwrap_output().metadata
}

#[test]
fn parsed_metadata_keeps_text_entries_in_order() {
    let meta = parsed_metadata();
    let entries = cooklang_bindings::metadata::metadata_text_entries(&meta);
    assert_eq!(
        entries,
        vec![
            ("title".to_string(), "Pancakes".to_string()),
            ("author".to_string(), "Ann".to_string())
        ]
    );
}

#[test]
fn parsed_metadata_tags() {
    let meta = parsed_metadata();
    assert_eq!(
        cooklang_bindings::metadata::metadata_tags(&meta),
        vec!["breakfast".to_string(), "sweet".to_string()]
    );
}

#[test]
fn no_tags_gives_an_empty_list() {
    let parser =
        cooklang::CooklangParser::new(cooklang::Extensions::all(), cooklang::Converter::empty());
    let meta = parser.parse("Mix @flour{}.").unwrap_output().metadata;
    assert!(cooklang_bindings::metadata::metadata_tags(&meta).is_empty());
}

#[test]
fn parsed_metadata_get_only_text_values() {
    let meta = parsed_metadata();
    assert_eq!(
        cooklang_bindings::metadata::metadata_get(&meta, "title".to_string()),
        Some("Pancakes".to_string())
    );
    assert_eq!(cooklang_bindings::metadata::metadata_get(&meta, "servings".to_string()), None);
    assert_eq!(cooklang_bindings::metadata::metadata_get(&meta, "missing".to_string()), None);
}
