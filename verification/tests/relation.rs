use cooklang_bindings::relation::{
    ComponentRelation, ComponentRelationType, IngredientReferenceTarget, IngredientRelation,
    SourceRelation,
};

#[test]
fn reference_parts_give_a_reference_with_target() {
    let r = IngredientRelation::from_parts(Some((4, IngredientReferenceTarget::Step)), &[9], Some(false));
    assert_eq!(r.relation_type, ComponentRelationType::Reference { references_to: 4 });
    assert_eq!(r.reference_target, Some(IngredientReferenceTarget::Step));
}

#[test]
fn definition_parts_give_a_definition_without_target() {
    let r = IngredientRelation::from_parts(None, &[1, 3], Some(false));
    assert_eq!(
        r.relation_type,
        ComponentRelationType::Definition { referenced_from: vec![1, 3], defined_in_step: false }
    );
    assert_eq!(r.reference_target, None);
}

#[test]
fn definition_is_in_a_step_unless_told_otherwise() {
    let r = IngredientRelation::from_parts(None, &[], None);
    assert_eq!(
        r.relation_type,
        ComponentRelationType::Definition { referenced_from: vec![], defined_in_step: true }
    );
}

#[test]
fn component_relation_from_source() {
    let d = ComponentRelation::from_source(&SourceRelation::Definition {
        referenced_from: vec![2, 5],
        defined_in_step: true,
    });
    assert_eq!(
        d.relation_type,
        ComponentRelationType::Definition { referenced_from: vec![2, 5], defined_in_step: true }
    );
    let r = ComponentRelationType::from_source(&SourceRelation::Reference { references_to: 6 });
    assert_eq!(r, ComponentRelationType::Reference { references_to: 6 });
}

#[test]
fn indices_wrap_at_u32() {
    let big = (u32::MAX as usize) + 2;
    let r = ComponentRelationType::from_source(&SourceRelation::Reference { references_to: big });
    assert_eq!(r, ComponentRelationType::Reference { references_to: 1 });
}

#[test]
fn relations_of_a_parsed_recipe() {
    let parser = cooklang::CooklangParser::new(cooklang::Extensions::all(), cooklang::Converter::empty());
    let recipe = parser.parse("Mix @flour{100%g}.\n\nAdd @&flour{50%g}.").unwrap_output();
    assert_eq!(recipe.ingredients.len(), 2);
    let definition = IngredientRelation::from_parser(&recipe.ingredients[0].relation);
    let reference = IngredientRelation::from_parser(&recipe.ingredients[1].relation);
    assert_eq!(
        definition.relation_type,
        ComponentRelationType::Definition { referenced_from: vec![1], defined_in_step: true }
    );
    assert_eq!(definition.reference_target, None);
    assert_eq!(reference.relation_type, ComponentRelationType::Reference { references_to: 0 });
    assert_eq!(reference.reference_target, Some(IngredientReferenceTarget::Ingredient));
}
