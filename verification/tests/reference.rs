use cooklang_bindings::reference::RecipeReference;

#[test]
fn path_joins_components_then_name() {
    let r = RecipeReference {
        name: "recipe".to_string(),
        components: vec![".".to_string(), "pasta".to_string()],
    };
    assert_eq!(r.path("/"), "./pasta/recipe");
    assert_eq!(r.path("\\"), ".\\pasta\\recipe");
}

#[test]
fn path_without_components_starts_with_the_separator() {
    let r = RecipeReference { name: "bread".to_string(), components: vec![] };
    assert_eq!(r.path("/"), "/bread");
}

#[test]
fn path_with_one_component() {
    let r = RecipeReference { name: "sauce".to_string(), components: vec!["base".to_string()] };
    assert_eq!(r.path("::"), "base::sauce");
}

#[test]
fn path_matches_cooklang_reference_path() {
    let components = vec!["a".to_string(), "b".to_string(), "c".to_string()];
    let ours = RecipeReference { name: "x".to_string(), components: components.clone() };
    let theirs = cooklang::model::RecipeReference { name: "x".to_string(), components };
    assert_eq!(ours.path("/"), theirs.path("/"));
}
