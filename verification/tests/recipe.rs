use cooklang_bindings::recipe::{
    build_section, build_sections, build_step, into_item, Block, Item, SourceContent, SourceItem,
    SourceSection,
};

fn text(s: &str) -> SourceItem {
    SourceItem::Text { value: s.to_string() }
}

#[test]
fn items_convert_one_for_one() {
    assert_eq!(into_item(&text("hi")), Item::Text { value: "hi".to_string() });
    assert_eq!(into_item(&SourceItem::Ingredient { index: 2 }), Item::IngredientRef { index: 2 });
    assert_eq!(into_item(&SourceItem::Cookware { index: 0 }), Item::CookwareRef { index: 0 });
    assert_eq!(into_item(&SourceItem::Timer { index: 7 }), Item::TimerRef { index: 7 });
    assert_eq!(
        into_item(&SourceItem::InlineQuantity { index: 3 }),
        Item::InlineQuantityRef { index: 3 }
    );
}

#[test]
fn item_index_wraps_at_u32() {
    let index = (u32::MAX as usize) + 3;
    assert_eq!(into_item(&SourceItem::Ingredient { index }), Item::IngredientRef { index: 2 });
}

#[test]
fn step_collects_references_by_kind_in_order() {
    let step = build_step(&vec![
        text("Put "),
        SourceItem::Ingredient { index: 1 },
        text(" in "),
        SourceItem::Cookware { index: 0 },
        SourceItem::Ingredient { index: 0 },
        SourceItem::Timer { index: 2 },
        SourceItem::InlineQuantity { index: 5 },
        SourceItem::Ingredient { index: 1 },
    ]);
    assert_eq!(step.items.len(), 8);
    assert_eq!(step.ingredient_refs, vec![1, 0, 1]);
    assert_eq!(step.cookware_refs, vec![0]);
    assert_eq!(step.timer_refs, vec![2]);
}

#[test]
fn section_refs_are_the_concatenated_step_refs() {
    let section = SourceSection {
        name: Some("Dough".to_string()),
        content: vec![
            SourceContent::Step(vec![SourceItem::Ingredient { index: 0 }, SourceItem::Timer { index: 0 }]),
            SourceContent::Text("a note".to_string()),
            SourceContent::Step(vec![
                SourceItem::Cookware { index: 1 },
                SourceItem::Ingredient { index: 2 },
                SourceItem::Ingredient { index: 3 },
            ]),
        ],
    };
    let s = build_section(&section);
    assert_eq!(s.title.as_deref(), Some("Dough"));
    assert_eq!(s.blocks.len(), 3);
    assert_eq!(s.ingredient_refs, vec![0, 2, 3]);
    assert_eq!(s.cookware_refs, vec![1]);
    assert_eq!(s.timer_refs, vec![0]);
    let mut concatenated = Vec::new();
    for block in &s.blocks {
        if let Block::StepBlock(step) = block {
            concatenated.extend(step.ingredient_refs.iter().copied());
        }
    }
    assert_eq!(concatenated, s.ingredient_refs);
    match &s.blocks[1] {
        Block::NoteBlock(note) => assert_eq!(note.text, "a note"),
        Block::StepBlock(_) => panic!("expected a note"),
    }
}

#[test]
fn untitled_empty_section() {
    let s = build_section(&SourceSection { name: None, content: vec![] });
    assert!(s.title.is_none());
    assert!(s.blocks.is_empty());
    assert!(s.ingredient_refs.is_empty());
}

#[test]
fn sections_are_built_in_order() {
    let sections = build_sections(&vec![
        SourceSection { name: Some("A".to_string()), content: vec![] },
        SourceSection {
            name: Some("B".to_string()),
            content: vec![SourceContent::Step(vec![SourceItem::Timer { index: 4 }])],
        },
    ]);
    assert_eq!(sections.len(), 2);
    assert_eq!(sections[0].title.as_deref(), Some("A"));
    assert_eq!(sections[1].title.as_deref(), Some("B"));
    assert_eq!(sections[1].timer_refs, vec![4]);
}
