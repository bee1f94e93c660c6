use cooklang_bindings::ingredient_list::{
    add_to_ingredient_list, expand_with_ingredients, merge_ingredient_lists, IngredientList,
};
use cooklang_bindings::component::Ingredient;
use cooklang_bindings::quantity::{
    into_group_quantity, merge_grouped_quantities, Amount, GroupedQuantity, GroupedQuantityKey,
    QuantityType, Value,
};
use cooklang_bindings::relation::IngredientRelation;

fn plus(a: f64, b: f64) -> f64 {
    a + b
}

fn key(name: &str, unit_type: QuantityType) -> GroupedQuantityKey {
    GroupedQuantityKey { name: name.to_string(), unit_type }
}

fn amount(quantity: Value<f64>, units: Option<&str>) -> Option<Amount<f64>> {
    Some(Amount { quantity, units: units.map(|u| u.to_string()) })
}

fn number(v: f64) -> Value<f64> {
    Value::Number { value: v }
}

fn text(s: &str) -> Value<f64> {
    Value::Text { value: s.to_string() }
}

#[test]
fn group_of_number_with_unit() {
    let q = into_group_quantity(&amount(number(1.5), Some("l")));
    assert_eq!(q.entries().len(), 1);
    assert_eq!(q.get(&key("l", QuantityType::Number)), Some(&number(1.5)));
}

#[test]
fn group_of_text_without_unit() {
    let q = into_group_quantity(&amount(text("pinch"), None));
    assert_eq!(q.get(&key("", QuantityType::Text)), Some(&text("pinch")));
}

#[test]
fn group_of_range_and_of_empty() {
    let r = into_group_quantity(&amount(Value::Range { start: 2.0, end: 3.0 }, Some("kg")));
    assert_eq!(r.get(&key("kg", QuantityType::Range)), Some(&Value::Range { start: 2.0, end: 3.0 }));
    let e = into_group_quantity(&amount(Value::Empty, Some("cup")));
    assert_eq!(e.get(&key("cup", QuantityType::Empty)), Some(&Value::Empty));
}

#[test]
fn group_of_no_amount() {
    let q = into_group_quantity::<f64>(&None);
    assert_eq!(q.entries().len(), 1);
    assert_eq!(q.get(&key("", QuantityType::Empty)), Some(&Value::Empty));
}

#[test]
fn merge_sums_numbers_under_the_same_unit() {
    let mut left = into_group_quantity(&amount(number(1.25), Some("l")));
    let right = into_group_quantity(&amount(number(2.0), Some("l")));
    merge_grouped_quantities(&mut left, &right, &plus);
    assert_eq!(left.entries().len(), 1);
    assert_eq!(left.get(&key("l", QuantityType::Number)), Some(&number(3.25)));
}

#[test]
fn merge_sums_both_ends_of_ranges() {
    let mut left = into_group_quantity(&amount(Value::Range { start: 1.0, end: 2.0 }, None));
    let right = into_group_quantity(&amount(Value::Range { start: 3.0, end: 5.0 }, None));
    merge_grouped_quantities(&mut left, &right, &plus);
    assert_eq!(left.get(&key("", QuantityType::Range)), Some(&Value::Range { start: 4.0, end: 7.0 }));
}

#[test]
fn merge_concatenates_texts() {
    let mut left = into_group_quantity(&amount(text("half"), Some("cup")));
    let right = into_group_quantity(&amount(text(" and a bit"), Some("cup")));
    merge_grouped_quantities(&mut left, &right, &plus);
    assert_eq!(left.get(&key("cup", QuantityType::Text)), Some(&text("half and a bit")));
}

#[test]
fn merge_keeps_an_empty_value() {
    let mut left = into_group_quantity::<f64>(&None);
    let right = into_group_quantity::<f64>(&None);
    merge_grouped_quantities(&mut left, &right, &plus);
    assert_eq!(left.entries().len(), 1);
    assert_eq!(left.get(&key("", QuantityType::Empty)), Some(&Value::Empty));
}

#[test]
fn merge_keeps_different_units_apart() {
    let mut left = into_group_quantity(&amount(number(1.0), Some("l")));
    let right = into_group_quantity(&amount(number(200.0), Some("ml")));
    merge_grouped_quantities(&mut left, &right, &plus);
    assert_eq!(left.entries().len(), 2);
    assert_eq!(left.get(&key("l", QuantityType::Number)), Some(&number(1.0)));
    assert_eq!(left.get(&key("ml", QuantityType::Number)), Some(&number(200.0)));
}

#[test]
fn merge_keeps_different_kinds_apart() {
    let mut left = into_group_quantity(&amount(number(1.0), Some("g")));
    let right = into_group_quantity(&amount(text("some"), Some("g")));
    merge_grouped_quantities(&mut left, &right, &plus);
    assert_eq!(left.entries().len(), 2);
}

#[test]
fn merging_nothing_changes_nothing() {
    let mut left = into_group_quantity(&amount(number(4.0), Some("g")));
    let right: GroupedQuantity<f64> = GroupedQuantity::new();
    merge_grouped_quantities(&mut left, &right, &plus);
    assert_eq!(left.entries().len(), 1);
    assert_eq!(left.get(&key("g", QuantityType::Number)), Some(&number(4.0)));
}

#[test]
fn insert_replaces_the_value_of_a_key() {
    let mut q: GroupedQuantity<f64> = GroupedQuantity::new();
    q.insert(key("g", QuantityType::Number), number(1.0));
    q.insert(key("g", QuantityType::Number), number(2.0));
    assert_eq!(q.entries().len(), 1);
    assert_eq!(q.get(&key("g", QuantityType::Number)), Some(&number(2.0)));
    assert_eq!(q.get(&key("kg", QuantityType::Number)), None);
}

fn ingredient(name: &str, a: Option<Amount<f64>>) -> Ingredient<f64> {
    Ingredient {
        name: name.to_string(),
        alias: None,
        amount: a,
        descriptor: None,
        reference: None,
        relation: IngredientRelation::from_parts(None, &[], None),
    }
}

#[test]
fn adding_to_a_list_creates_or_merges() {
    let mut list: IngredientList<f64> = IngredientList::new();
    let flour = "flour".to_string();
    add_to_ingredient_list(&mut list, &flour, &into_group_quantity(&amount(number(100.0), Some("g"))), &plus);
    add_to_ingredient_list(&mut list, &flour, &into_group_quantity(&amount(number(50.0), Some("g"))), &plus);
    assert_eq!(list.entries().len(), 1);
    let q = list.get(&flour).unwrap();
    assert_eq!(q.get(&key("g", QuantityType::Number)), Some(&number(150.0)));
}

#[test]
fn expand_adds_the_listed_ingredients_in_order() {
    let ingredients = vec![
        ingredient("flour", amount(number(100.0), Some("g"))),
        ingredient("salt", amount(text("pinch"), None)),
        ingredient("flour", amount(number(20.0), Some("g"))),
        ingredient("water", None),
    ];
    let mut list: IngredientList<f64> = IngredientList::new();
    expand_with_ingredients(&ingredients, &mut list, &vec![0, 1, 2, 3, 1], &plus);
    assert_eq!(list.entries().len(), 3);
    let flour = list.get(&"flour".to_string()).unwrap();
    assert_eq!(flour.get(&key("g", QuantityType::Number)), Some(&number(120.0)));
    let salt = list.get(&"salt".to_string()).unwrap();
    assert_eq!(salt.get(&key("", QuantityType::Text)), Some(&text("pinchpinch")));
    let water = list.get(&"water".to_string()).unwrap();
    assert_eq!(water.get(&key("", QuantityType::Empty)), Some(&Value::Empty));
}

#[test]
fn expand_with_no_indices_changes_nothing() {
    let ingredients = vec![ingredient("flour", amount(number(1.0), Some("g")))];
    let mut list: IngredientList<f64> = IngredientList::new();
    expand_with_ingredients(&ingredients, &mut list, &vec![], &plus);
    assert!(list.entries().is_empty());
}

#[test]
fn merging_lists_unions_names_and_merges_shared_ones() {
    let mut left: IngredientList<f64> = IngredientList::new();
    left.insert("flour".to_string(), into_group_quantity(&amount(number(1.0), Some("kg"))));
    left.insert("egg".to_string(), into_group_quantity(&amount(number(2.0), None)));
    let mut right: IngredientList<f64> = IngredientList::new();
    right.insert("egg".to_string(), into_group_quantity(&amount(number(3.0), None)));
    right.insert("milk".to_string(), into_group_quantity(&amount(number(0.5), Some("l"))));
    merge_ingredient_lists(&mut left, &right, &plus);
    assert_eq!(left.entries().len(), 3);
    let egg = left.get(&"egg".to_string()).unwrap();
    assert_eq!(egg.get(&key("", QuantityType::Number)), Some(&number(5.0)));
    let milk = left.get(&"milk".to_string()).unwrap();
    assert_eq!(milk.get(&key("l", QuantityType::Number)), Some(&number(0.5)));
    let flour = left.get(&"flour".to_string()).unwrap();
    assert_eq!(flour.get(&key("kg", QuantityType::Number)), Some(&number(1.0)));
}

#[test]
fn merging_an_empty_list_changes_nothing() {
    let mut left: IngredientList<f64> = IngredientList::new();
    left.insert("egg".to_string(), into_group_quantity(&amount(number(2.0), None)));
    let right: IngredientList<f64> = IngredientList::new();
    merge_ingredient_lists(&mut left, &right, &plus);
    assert_eq!(left.entries().len(), 1);
    let egg = left.get(&"egg".to_string()).unwrap();
    assert_eq!(egg.get(&key("", QuantityType::Number)), Some(&number(2.0)));
}

#[test]
fn merging_numbers_and_ranges_commutes() {
    let mut a = into_group_quantity(&amount(number(1.5), Some("g")));
    a.insert(key("", QuantityType::Range), Value::Range { start: 1.0, end: 2.0 });
    a.insert(key("", QuantityType::Empty), Value::Empty);
    let mut b = into_group_quantity(&amount(number(2.0), Some("g")));
    b.insert(key("", QuantityType::Range), Value::Range { start: 0.5, end: 4.0 });
    b.insert(key("ml", QuantityType::Number), number(3.0));
    let mut l1 = a.clone();
    merge_grouped_quantities(&mut l1, &b, &plus);
    let mut l2 = b.clone();
    merge_grouped_quantities(&mut l2, &a, &plus);
    for k in [
        key("g", QuantityType::Number),
        key("", QuantityType::Range),
        key("", QuantityType::Empty),
        key("ml", QuantityType::Number),
    ] {
        assert_eq!(l1.get(&k), l2.get(&k));
    }
    assert_eq!(l1.entries().len(), 4);
    assert_eq!(l2.entries().len(), 4);
    assert_eq!(l1.get(&key("g", QuantityType::Number)), Some(&number(3.5)));
}
