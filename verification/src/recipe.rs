//! The sections of a recipe: the source layout read from the parser (one
//! item per step element) and the simplified shape handed to callers, with
//! the component references of every step and section collected.
use vstd::prelude::*;

verus! {

/// Index of an ingredient, cookware, timer or inline quantity in the recipe's
/// corresponding list.
pub type ComponentRef = u32;

/// A step element as the parser lays it out: text, or the index of a
/// component in the recipe's list of that kind.
#[derive(Debug)]
pub enum SourceItem {
    Text { value: String },
    Ingredient { index: usize },
    Cookware { index: usize },
    Timer { index: usize },
    InlineQuantity { index: usize },
}

/// A section's content as the parser lays it out: a step with its elements,
/// or a paragraph of text.
#[derive(Debug)]
pub enum SourceContent {
    Step(Vec<SourceItem>),
    Text(String),
}

/// A section as the parser lays it out.
#[derive(Debug)]
pub struct SourceSection {
    pub name: Option<String>,
    pub content: Vec<SourceContent>,
}

/// The value of a `SourceContent`.
pub enum SourceContentView {
    Step(Seq<SourceItem>),
    Text(String),
}

impl View for SourceContent {
    type V = SourceContentView;

    open spec fn view(&self) -> SourceContentView {
        match self {
            SourceContent::Step(items) => SourceContentView::Step(items@),
            SourceContent::Text(text) => SourceContentView::Text(*text),
        }
    }
}

/// The value of a `SourceSection`.
pub struct SourceSectionView {
    pub name: Option<String>,
    pub content: Seq<SourceContentView>,
}

impl View for SourceSection {
    type V = SourceSectionView;

    open spec fn view(&self) -> SourceSectionView {
        SourceSectionView {
            name: self.name,
            content: self.content@.map_values(|c: SourceContent| c@),
        }
    }
}

/// Elements that can appear in a recipe step
#[derive(Debug, PartialEq)]
pub enum Item {
    Text { value: String },
    IngredientRef { index: ComponentRef },
    CookwareRef { index: ComponentRef },
    TimerRef { index: ComponentRef },
    InlineQuantityRef { index: ComponentRef },
}

impl Clone for Item {
    fn clone(&self) -> (r: Self)
        ensures
            r == *self,
    {
        match self {
            Item::Text { value } => Item::Text { value: value.clone() },
            Item::IngredientRef { index } => Item::IngredientRef { index: *index },
            Item::CookwareRef { index } => Item::CookwareRef { index: *index },
            Item::TimerRef { index } => Item::TimerRef { index: *index },
            Item::InlineQuantityRef { index } => Item::InlineQuantityRef { index: *index },
        }
    }
}

/// Represents a single cooking instruction step
#[derive(Debug)]
pub struct Step {
    pub items: Vec<Item>,
    pub ingredient_refs: Vec<ComponentRef>,
    pub cookware_refs: Vec<ComponentRef>,
    pub timer_refs: Vec<ComponentRef>,
}

/// The value of a `Step`.
pub struct StepView {
    pub items: Seq<Item>,
    pub ingredient_refs: Seq<ComponentRef>,
    pub cookware_refs: Seq<ComponentRef>,
    pub timer_refs: Seq<ComponentRef>,
}

impl View for Step {
    type V = StepView;

    open spec fn view(&self) -> StepView {
        StepView {
            items: self.items@,
            ingredient_refs: self.ingredient_refs@,
            cookware_refs: self.cookware_refs@,
            timer_refs: self.timer_refs@,
        }
    }
}

/// A text note within the recipe
#[derive(Debug)]
pub struct BlockNote {
    pub text: String,
}

impl Clone for BlockNote {
    fn clone(&self) -> (r: Self)
        ensures
            r == *self,
    {
        BlockNote { text: self.text.clone() }
    }
}

/// A block can either be a cooking step or a note
#[derive(Debug)]
pub enum Block {
    StepBlock(Step),
    NoteBlock(BlockNote),
}

/// The value of a `Block`.
pub enum BlockView {
    StepBlock(StepView),
    NoteBlock(BlockNote),
}

impl View for Block {
    type V = BlockView;

    open spec fn view(&self) -> BlockView {
        match self {
            Block::StepBlock(step) => BlockView::StepBlock(step@),
            Block::NoteBlock(note) => BlockView::NoteBlock(*note),
        }
    }
}

/// Represents a distinct section of a recipe, optionally with a title
#[derive(Debug)]
pub struct Section {
    pub title: Option<String>,
    pub blocks: Vec<Block>,
    pub ingredient_refs: Vec<ComponentRef>,
    pub cookware_refs: Vec<ComponentRef>,
    pub timer_refs: Vec<ComponentRef>,
}

/// The value of a `Section`.
pub struct SectionView {
    pub title: Option<String>,
    pub blocks: Seq<BlockView>,
    pub ingredient_refs: Seq<ComponentRef>,
    pub cookware_refs: Seq<ComponentRef>,
    pub timer_refs: Seq<ComponentRef>,
}

impl View for Section {
    type V = SectionView;

    open spec fn view(&self) -> SectionView {
        SectionView {
            title: self.title,
            blocks: block_views(self.blocks@),
            ingredient_refs: self.ingredient_refs@,
            cookware_refs: self.cookware_refs@,
            timer_refs: self.timer_refs@,
        }
    }
}

/// The values of a sequence of blocks.
pub open spec fn block_views(blocks: Seq<Block>) -> Seq<BlockView> {
    blocks.map_values(|b: Block| b@)
}

/// The blocks built from section content.
pub open spec fn blocks_of(content: Seq<SourceContentView>) -> Seq<BlockView> {
    content.map_values(|c: SourceContentView| block_of(c))
}

/// The values of a sequence of sections.
pub open spec fn section_views(sections: Seq<Section>) -> Seq<SectionView> {
    sections.map_values(|s: Section| s@)
}

/// The sections built from parser sections.
pub open spec fn sections_of(sources: Seq<SourceSection>) -> Seq<SectionView> {
    sources.map_values(|s: SourceSection| section_of(s@))
}

/// The step element for a parser element; indices are cast to `u32`
/// (wrapping, as `as` does).
pub open spec fn item_of(item: SourceItem) -> Item {
    match item {
        SourceItem::Text { value } => Item::Text { value },
        SourceItem::Ingredient { index } => Item::IngredientRef { index: index as u32 },
        SourceItem::Cookware { index } => Item::CookwareRef { index: index as u32 },
        SourceItem::Timer { index } => Item::TimerRef { index: index as u32 },
        SourceItem::InlineQuantity { index } => Item::InlineQuantityRef { index: index as u32 },
    }
}

/// The ingredient index an element refers to, if it refers to one.
pub open spec fn ingredient_ref(item: Item) -> Option<ComponentRef> {
    match item {
        Item::IngredientRef { index } => Some(index),
        _ => None,
    }
}

/// The cookware index an element refers to, if it refers to one.
pub open spec fn cookware_ref(item: Item) -> Option<ComponentRef> {
    match item {
        Item::CookwareRef { index } => Some(index),
        _ => None,
    }
}

/// The timer index an element refers to, if it refers to one.
pub open spec fn timer_ref(item: Item) -> Option<ComponentRef> {
    match item {
        Item::TimerRef { index } => Some(index),
        _ => None,
    }
}

/// The step elements for a parser step.
pub open spec fn items_of(items: Seq<SourceItem>) -> Seq<Item> {
    items.map_values(|i: SourceItem| item_of(i))
}

/// The step built from a parser step: its elements, and in element order the
/// indices of the ingredients, cookware and timers it refers to.
pub open spec fn step_of(items: Seq<SourceItem>) -> StepView {
    StepView {
        items: items_of(items),
        ingredient_refs: items_of(items).filter_map(|i: Item| ingredient_ref(i)),
        cookware_refs: items_of(items).filter_map(|i: Item| cookware_ref(i)),
        timer_refs: items_of(items).filter_map(|i: Item| timer_ref(i)),
    }
}

/// The block built from a piece of section content.
pub open spec fn block_of(content: SourceContentView) -> BlockView {
    match content {
        SourceContentView::Step(items) => BlockView::StepBlock(step_of(items)),
        SourceContentView::Text(text) => BlockView::NoteBlock(BlockNote { text }),
    }
}

/// The indices that `pick` selects from the elements of every step of
/// `content`, steps in order.
pub open spec fn content_refs(
    content: Seq<SourceContentView>,
    pick: spec_fn(Item) -> Option<ComponentRef>,
) -> Seq<ComponentRef>
    decreases content.len(),
{
    if content.len() == 0 {
        Seq::empty()
    } else {
        content_refs(content.drop_last(), pick) + match content.last() {
            SourceContentView::Step(items) => items_of(items).filter_map(pick),
            SourceContentView::Text(_) => Seq::empty(),
        }
    }
}

/// The section built from a parser section: its title, one block per piece
/// of content, and the references of all its steps.
pub open spec fn section_of(section: SourceSectionView) -> SectionView {
    SectionView {
        title: section.name,
        blocks: blocks_of(section.content),
        ingredient_refs: content_refs(section.content, |i: Item| ingredient_ref(i)),
        cookware_refs: content_refs(section.content, |i: Item| cookware_ref(i)),
        timer_refs: content_refs(section.content, |i: Item| timer_ref(i)),
    }
}

/// The references that `select` picks from each step block of `blocks`,
/// concatenated in block order.
pub open spec fn step_block_refs(
    blocks: Seq<BlockView>,
    select: spec_fn(StepView) -> Seq<ComponentRef>,
) -> Seq<ComponentRef>
    decreases blocks.len(),
{
    if blocks.len() == 0 {
        Seq::empty()
    } else {
        step_block_refs(blocks.drop_last(), select) + match blocks.last() {
            BlockView::StepBlock(step) => select(step),
            BlockView::NoteBlock(_) => Seq::empty(),
        }
    }
}

proof fn lemma_content_refs_are_block_refs(
    content: Seq<SourceContentView>,
    pick: spec_fn(Item) -> Option<ComponentRef>,
    select: spec_fn(StepView) -> Seq<ComponentRef>,
)
    requires
        forall|items: Seq<SourceItem>| #[trigger]
            select(step_of(items)) == items_of(items).filter_map(pick),
    ensures
        content_refs(content, pick) == step_block_refs(blocks_of(content), select),
    decreases content.len(),
{
    if content.len() > 0 {
        lemma_content_refs_are_block_refs(content.drop_last(), pick, select);
        assert(blocks_of(content).drop_last() =~= blocks_of(content.drop_last()));
        assert(blocks_of(content).last() == block_of(content.last()));
        match content.last() {
            SourceContentView::Step(items) => {
                assert(select(step_of(items)) == items_of(items).filter_map(pick));
            },
            SourceContentView::Text(_) => {},
        }
    }
}

/// A section's ingredient, cookware and timer references are those of its
/// step blocks, concatenated in block order; it has one block per piece of
/// source content, a step block exactly where the content is a step.
pub proof fn lemma_section_refs_come_from_steps(source: SourceSectionView)
    ensures
        section_of(source).ingredient_refs == step_block_refs(
            section_of(source).blocks,
            |s: StepView| s.ingredient_refs,
        ),
        section_of(source).cookware_refs == step_block_refs(
            section_of(source).blocks,
            |s: StepView| s.cookware_refs,
        ),
        section_of(source).timer_refs == step_block_refs(
            section_of(source).blocks,
            |s: StepView| s.timer_refs,
        ),
        section_of(source).blocks.len() == source.content.len(),
        forall|i: int|
            0 <= i < source.content.len() ==> ((#[trigger] section_of(source).blocks[i]) is StepBlock
                <==> source.content[i] is Step),
{
    lemma_content_refs_are_block_refs(
        source.content,
        |i: Item| ingredient_ref(i),
        |s: StepView| s.ingredient_refs,
    );
    lemma_content_refs_are_block_refs(
        source.content,
        |i: Item| cookware_ref(i),
        |s: StepView| s.cookware_refs,
    );
    lemma_content_refs_are_block_refs(
        source.content,
        |i: Item| timer_ref(i),
        |s: StepView| s.timer_refs,
    );
}

/// How many elements of `items` satisfy `p`.
pub open spec fn count_where(items: Seq<SourceItem>, p: spec_fn(SourceItem) -> bool) -> nat
    decreases items.len(),
{
    if items.len() == 0 {
        0
    } else {
        count_where(items.drop_last(), p) + if p(items.last()) {
            1nat
        } else {
            0nat
        }
    }
}

proof fn lemma_picked_positions(
    items: Seq<SourceItem>,
    pick: spec_fn(Item) -> Option<ComponentRef>,
    p: spec_fn(SourceItem) -> bool,
)
    requires
        forall|s: SourceItem| #[trigger] p(s) == (pick(item_of(s)) is Some),
    ensures
        items_of(items).filter_map(pick).len() == count_where(items, p),
        forall|j: int|
            0 <= j < items.len() && #[trigger] p(items[j]) ==> count_where(items.take(j), p)
                < count_where(items, p),
        forall|j: int|
            0 <= j < items.len() && #[trigger] p(items[j]) ==> items_of(items).filter_map(pick)[count_where(
                items.take(j),
                p,
            ) as int] == pick(item_of(items[j]))->0,
    decreases items.len(),
{
    if items.len() > 0 {
        let rest = items.drop_last();
        let last = items.len() - 1;
        lemma_picked_positions(rest, pick, p);
        assert(items_of(items).drop_last() =~= items_of(rest));
        assert(items_of(items).last() == item_of(items.last()));
        assert(items.take(last) =~= rest);
        assert(p(items.last()) == (pick(item_of(items.last())) is Some));
        assert forall|j: int| 0 <= j < items.len() && #[trigger] p(items[j]) implies count_where(
            items.take(j),
            p,
        ) < count_where(items, p) && items_of(items).filter_map(pick)[count_where(
            items.take(j),
            p,
        ) as int] == pick(item_of(items[j]))->0 by {
            if j < last {
                assert(items.take(j) =~= rest.take(j));
                assert(items[j] == rest[j]);
            }
        }
    }
}

/// A step's references follow its elements: it has exactly one timer
/// reference per timer element, and the timer element at position `j` gives
/// the entry that comes after those of the timer elements before it, which
/// is that element's index narrowed to `u32`. Likewise for ingredients and
/// cookware.
pub proof fn lemma_step_refs_follow_elements(items: Seq<SourceItem>)
    ensures
        step_of(items).timer_refs.len() == count_where(items, |s: SourceItem| s is Timer),
        forall|j: int|
            0 <= j < items.len() && (#[trigger] items[j] is Timer) ==> step_of(
                items,
            ).timer_refs[count_where(items.take(j), |s: SourceItem| s is Timer) as int]
                == items[j]->Timer_index as u32,
        step_of(items).ingredient_refs.len() == count_where(
            items,
            |s: SourceItem| s is Ingredient,
        ),
        forall|j: int|
            0 <= j < items.len() && (#[trigger] items[j] is Ingredient) ==> step_of(
                items,
            ).ingredient_refs[count_where(items.take(j), |s: SourceItem| s is Ingredient) as int]
                == items[j]->Ingredient_index as u32,
        step_of(items).cookware_refs.len() == count_where(items, |s: SourceItem| s is Cookware),
        forall|j: int|
            0 <= j < items.len() && (#[trigger] items[j] is Cookware) ==> step_of(
                items,
            ).cookware_refs[count_where(items.take(j), |s: SourceItem| s is Cookware) as int]
                == items[j]->Cookware_index as u32,
{
    let is_t = |s: SourceItem| s is Timer;
    let is_i = |s: SourceItem| s is Ingredient;
    let is_c = |s: SourceItem| s is Cookware;
    lemma_picked_positions(items, |i: Item| timer_ref(i), is_t);
    lemma_picked_positions(items, |i: Item| ingredient_ref(i), is_i);
    lemma_picked_positions(items, |i: Item| cookware_ref(i), is_c);
    assert forall|j: int| 0 <= j < items.len() && (#[trigger] items[j] is Timer) implies step_of(
        items,
    ).timer_refs[count_where(items.take(j), is_t) as int] == items[j]->Timer_index as u32 by {
        assert(is_t(items[j]));
    }
    assert forall|j: int|
        0 <= j < items.len() && (#[trigger] items[j] is Ingredient) implies step_of(
        items,
    ).ingredient_refs[count_where(items.take(j), is_i) as int] == items[j]->Ingredient_index as u32 by {
        assert(is_i(items[j]));
    }
    assert forall|j: int| 0 <= j < items.len() && (#[trigger] items[j] is Cookware) implies step_of(
        items,
    ).cookware_refs[count_where(items.take(j), is_c) as int] == items[j]->Cookware_index as u32 by {
        assert(is_c(items[j]));
    }
}

/// Converts a parser step element.
pub fn into_item(item: &SourceItem) -> (r: Item)
    ensures
        r == item_of(*item),
{
    match item {
        SourceItem::Text { value } => Item::Text { value: value.clone() },
        SourceItem::Ingredient { index } => Item::IngredientRef { index: *index as u32 },
        SourceItem::Cookware { index } => Item::CookwareRef { index: *index as u32 },
        SourceItem::Timer { index } => Item::TimerRef { index: *index as u32 },
        SourceItem::InlineQuantity { index } => Item::InlineQuantityRef { index: *index as u32 },
    }
}

/// Builds a step from a parser step: converts its elements and collects the
/// component indices they refer to.
pub fn build_step(source: &Vec<SourceItem>) -> (r: Step)
    ensures
        r@ == step_of(source@),
        r.timer_refs@.len() == count_where(source@, |s: SourceItem| s is Timer),
        forall|j: int|
            0 <= j < source@.len() && (#[trigger] source@[j] is Timer) ==> r.timer_refs@[count_where(
                source@.take(j),
                |s: SourceItem| s is Timer,
            ) as int] == source@[j]->Timer_index as u32,
        r.ingredient_refs@.len() == count_where(source@, |s: SourceItem| s is Ingredient),
        forall|j: int|
            0 <= j < source@.len() && (#[trigger] source@[j] is Ingredient)
                ==> r.ingredient_refs@[count_where(
                source@.take(j),
                |s: SourceItem| s is Ingredient,
            ) as int] == source@[j]->Ingredient_index as u32,
        r.cookware_refs@.len() == count_where(source@, |s: SourceItem| s is Cookware),
        forall|j: int|
            0 <= j < source@.len() && (#[trigger] source@[j] is Cookware)
                ==> r.cookware_refs@[count_where(
                source@.take(j),
                |s: SourceItem| s is Cookware,
            ) as int] == source@[j]->Cookware_index as u32,
{
    proof {
        lemma_step_refs_follow_elements(source@);
    }
    let ghost all = items_of(source@);
    let ghost pick_i = |i: Item| ingredient_ref(i);
    let ghost pick_c = |i: Item| cookware_ref(i);
    let ghost pick_t = |i: Item| timer_ref(i);
    let mut items: Vec<Item> = Vec::new();
    let mut ingredient_refs: Vec<ComponentRef> = Vec::new();
    let mut cookware_refs: Vec<ComponentRef> = Vec::new();
    let mut timer_refs: Vec<ComponentRef> = Vec::new();
    let n = source.len();
    let mut k: usize = 0;
    while k < n
        invariant
            n == source@.len(),
            0 <= k <= n,
            all == items_of(source@),
            pick_i == (|i: Item| ingredient_ref(i)),
            pick_c == (|i: Item| cookware_ref(i)),
            pick_t == (|i: Item| timer_ref(i)),
            items@ == all.take(k as int),
            ingredient_refs@ == all.take(k as int).filter_map(pick_i),
            cookware_refs@ == all.take(k as int).filter_map(pick_c),
            timer_refs@ == all.take(k as int).filter_map(pick_t),
        decreases n - k,
    {
        let item = into_item(&source[k]);
        proof {
            let next = all.take(k + 1);
            assert(next.drop_last() =~= all.take(k as int));
            assert(next.last() == item);
        }
        match &item {
            Item::IngredientRef { index } => {
                ingredient_refs.push(*index);
            },
            Item::CookwareRef { index } => {
                cookware_refs.push(*index);
            },
            Item::TimerRef { index } => {
                timer_refs.push(*index);
            },
            _ => {},
        }
        items.push(item);
        proof {
            assert(items@ =~= all.take(k + 1));
        }
        k = k + 1;
    }
    proof {
        assert(all.take(n as int) =~= all);
    }
    Step { items, ingredient_refs, cookware_refs, timer_refs }
}

/// Builds a section from a parser section: one block per piece of content,
/// and the component indices referred to by its steps, steps in order.
pub fn build_section(source: &SourceSection) -> (r: Section)
    ensures
        r@ == section_of(source@),
        r@.ingredient_refs == step_block_refs(r@.blocks, |s: StepView| s.ingredient_refs),
        r@.cookware_refs == step_block_refs(r@.blocks, |s: StepView| s.cookware_refs),
        r@.timer_refs == step_block_refs(r@.blocks, |s: StepView| s.timer_refs),
{
    proof {
        lemma_section_refs_come_from_steps(source@);
    }
    let ghost content = source@.content;
    let ghost pick_i = |i: Item| ingredient_ref(i);
    let ghost pick_c = |i: Item| cookware_ref(i);
    let ghost pick_t = |i: Item| timer_ref(i);
    let mut blocks: Vec<Block> = Vec::new();
    let mut ingredient_refs: Vec<ComponentRef> = Vec::new();
    let mut cookware_refs: Vec<ComponentRef> = Vec::new();
    let mut timer_refs: Vec<ComponentRef> = Vec::new();
    let n = source.content.len();
    let mut k: usize = 0;
    while k < n
        invariant
            n == source.content@.len(),
            0 <= k <= n,
            content == source@.content,
            pick_i == (|i: Item| ingredient_ref(i)),
            pick_c == (|i: Item| cookware_ref(i)),
            pick_t == (|i: Item| timer_ref(i)),
            blocks@.len() == k,
            block_views(blocks@) == blocks_of(content.take(k as int)),
            ingredient_refs@ == content_refs(content.take(k as int), pick_i),
            cookware_refs@ == content_refs(content.take(k as int), pick_c),
            timer_refs@ == content_refs(content.take(k as int), pick_t),
        decreases n - k,
    {
        let ghost next = content.take(k + 1);
        proof {
            assert(next.drop_last() =~= content.take(k as int));
            assert(next.last() == source.content@[k as int]@);
        }
        let ghost blocks_before = blocks@;
        match &source.content[k] {
            SourceContent::Step(items) => {
                let mut step = build_step(items);
                let mut ing = step.ingredient_refs.clone();
                let mut cw = step.cookware_refs.clone();
                let mut tm = step.timer_refs.clone();
                proof {
                    assert(ing@ =~= step.ingredient_refs@);
                    assert(cw@ =~= step.cookware_refs@);
                    assert(tm@ =~= step.timer_refs@);
                }
                ingredient_refs.append(&mut ing);
                cookware_refs.append(&mut cw);
                timer_refs.append(&mut tm);
                let ghost step_view = step@;
                blocks.push(Block::StepBlock(step));
                proof {
                    assert(blocks@ == blocks_before.push(blocks@.last()));
                    assert(blocks@.last()@ == BlockView::StepBlock(step_view));
                    assert(block_of(next.last()) == BlockView::StepBlock(step_view));
                }
            },
            SourceContent::Text(text) => {
                blocks.push(Block::NoteBlock(BlockNote { text: text.clone() }));
                proof {
                    assert(blocks@ == blocks_before.push(blocks@.last()));
                    assert(block_of(next.last()) == blocks@.last()@);
                }
            },
        }
        proof {
            let old_views = block_views(blocks_before);
            assert forall|j: int| 0 <= j < k + 1 implies block_views(blocks@)[j] == blocks_of(
                next,
            )[j] by {
                if j < k {
                    assert(old_views[j] == blocks_of(content.take(k as int))[j]);
                    assert(next[j] == content.take(k as int)[j]);
                }
            }
            assert(block_views(blocks@) =~= blocks_of(next));
        }
        k = k + 1;
    }
    proof {
        assert(content.take(n as int) =~= content);
    }
    let title = source.name.clone();
    Section { title, blocks, ingredient_refs, cookware_refs, timer_refs }
}

/// Builds every section of a recipe, in order.
pub fn build_sections(sources: &Vec<SourceSection>) -> (r: Vec<Section>)
    ensures
        section_views(r@) == sections_of(sources@),
{
    let mut sections: Vec<Section> = Vec::new();
    let n = sources.len();
    let mut k: usize = 0;
    while k < n
        invariant
            n == sources@.len(),
            0 <= k <= n,
            sections@.len() == k,
            section_views(sections@) == sections_of(sources@.take(k as int)),
        decreases n - k,
    {
        let section = build_section(&sources[k]);
        let ghost before = sections@;
        sections.push(section);
        proof {
            assert(sections@ == before.push(sections@.last()));
            assert(sections@.last()@ == section_of(sources@.take(k + 1).last()@));
        }
        proof {
            let old_views = section_views(before);
            assert forall|j: int| 0 <= j < k + 1 implies section_views(sections@)[j] == sections_of(
                sources@.take(k + 1),
            )[j] by {
                if j < k {
                    assert(old_views[j] == sections_of(sources@.take(k as int))[j]);
                    assert(sections@[j] == before[j]);
                    assert(sources@.take(k + 1)[j] == sources@.take(k as int)[j]);
                } else {
                    assert(sources@.take(k + 1)[j] == sources@[k as int]);
                }
            }
            assert(section_views(sections@) =~= sections_of(sources@.take(k + 1)));
        }
        k = k + 1;
    }
    proof {
        assert(sources@.take(n as int) =~= sources@);
    }
    sections
}

} // verus!
