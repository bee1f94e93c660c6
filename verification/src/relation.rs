//! How a component relates to the other components of its kind: a
//! definition (with the indices of the components that refer to it) or a
//! reference to a definition.
use vstd::prelude::*;
use cooklang::model::IngredientRelation as ParserIngredientRelation;

verus! {

/// The parser's `cooklang::model::IngredientRelation`, known to the verifier
/// only through what its three query methods return.
#[verifier::external_type_specification]
#[verifier::external_body]
pub struct ExParserIngredientRelation(ParserIngredientRelation);

/// Target an ingredient reference points to (ingredient, step, or section).
#[derive(Debug, PartialEq, Eq, Clone, Copy, Structural)]
pub enum IngredientReferenceTarget {
    Ingredient,
    Step,
    Section,
}

/// What `cooklang::model::IngredientRelation::references_to` returns for a
/// relation, its target converted variant for variant.
pub uninterp spec fn parser_references_to(rel: ParserIngredientRelation) -> Option<
    (usize, IngredientReferenceTarget),
>;

/// What `cooklang::model::IngredientRelation::referenced_from` returns.
pub uninterp spec fn parser_referenced_from(rel: ParserIngredientRelation) -> Seq<usize>;

/// What `cooklang::model::IngredientRelation::is_defined_in_step` returns.
pub uninterp spec fn parser_defined_in_step(rel: ParserIngredientRelation) -> Option<bool>;

/// What `cooklang::model::IngredientRelation::is_definition` returns.
pub uninterp spec fn parser_is_definition(rel: ParserIngredientRelation) -> bool;

/// Whether `rel` is a definition or a reference whose target it records:
/// exactly the relations on which `references_to` returns instead of
/// panicking (it unwraps the stored target of a reference). Every relation
/// that cooklang builds while parsing records its target; one deserialized
/// as a reference without a target does not.
pub uninterp spec fn parser_target_recorded(rel: ParserIngredientRelation) -> bool;

/// `cooklang::model::IngredientRelation::is_definition`: whether the relation
/// is a definition. It matches on the relation and cannot panic. For a
/// definition, `references_to` maps the absent reference to `None` without
/// touching the target, so it returns, and returns `None`.
#[verifier::external_body]
fn parser_relation_is_definition(rel: &ParserIngredientRelation) -> (r: bool)
    ensures
        r == parser_is_definition(*rel),
        r ==> parser_target_recorded(*rel),
        r ==> parser_references_to(*rel) is None,
{
    rel.is_definition()
}

/// `cooklang::model::IngredientRelation::references_to`: the index and target
/// of a reference, `None` for a definition. It unwraps the stored target of a
/// reference, so it is called only where that target is recorded.
#[verifier::external_body]
fn parser_relation_references_to(rel: &ParserIngredientRelation) -> (r: Option<
    (usize, IngredientReferenceTarget),
>)
    requires
        parser_target_recorded(*rel),
    ensures
        r == parser_references_to(*rel),
{
    match rel.references_to() {
        Some((index, cooklang::model::IngredientReferenceTarget::Ingredient)) => Some(
            (index, IngredientReferenceTarget::Ingredient),
        ),
        Some((index, cooklang::model::IngredientReferenceTarget::Step)) => Some(
            (index, IngredientReferenceTarget::Step),
        ),
        Some((index, cooklang::model::IngredientReferenceTarget::Section)) => Some(
            (index, IngredientReferenceTarget::Section),
        ),
        None => None,
    }
}

/// `cooklang::model::IngredientRelation::referenced_from`: the indices of the
/// ingredients referring to this definition (empty for a reference).
#[verifier::external_body]
fn parser_relation_referenced_from(rel: &ParserIngredientRelation) -> (r: Vec<usize>)
    ensures
        r@ == parser_referenced_from(*rel),
{
    rel.referenced_from().to_vec()
}

/// `cooklang::model::IngredientRelation::is_defined_in_step`: whether a
/// definition was made in a step, `None` for a reference.
#[verifier::external_body]
fn parser_relation_defined_in_step(rel: &ParserIngredientRelation) -> (r: Option<bool>)
    ensures
        r == parser_defined_in_step(*rel),
{
    rel.is_defined_in_step()
}

/// Whether a component is a definition or a reference, plus the related indices.
#[derive(Debug, PartialEq)]
pub enum ComponentRelationType {
    /// The component is a definition that may be referenced by others
    Definition {
        /// Indices of other components of the same kind that reference this one
        referenced_from: Vec<u32>,
        /// True when defined inside a step (false only in components mode)
        defined_in_step: bool,
    },
    /// The component is a reference to another component
    Reference {
        /// Index of the definition this references
        references_to: u32,
    },
}

/// The value of a `ComponentRelationType`.
pub enum RelationTypeView {
    Definition { referenced_from: Seq<u32>, defined_in_step: bool },
    Reference { references_to: u32 },
}

impl View for ComponentRelationType {
    type V = RelationTypeView;

    open spec fn view(&self) -> RelationTypeView {
        match self {
            ComponentRelationType::Definition { referenced_from, defined_in_step } => {
                RelationTypeView::Definition {
                    referenced_from: referenced_from@,
                    defined_in_step: *defined_in_step,
                }
            },
            ComponentRelationType::Reference { references_to } => RelationTypeView::Reference {
                references_to: *references_to,
            },
        }
    }
}

impl Clone for ComponentRelationType {
    fn clone(&self) -> (r: Self)
        ensures
            r@ == self@,
    {
        match self {
            ComponentRelationType::Definition { referenced_from, defined_in_step } => {
                let referenced_from = copy_indices(referenced_from);
                ComponentRelationType::Definition { referenced_from, defined_in_step: *defined_in_step }
            },
            ComponentRelationType::Reference { references_to } => ComponentRelationType::Reference {
                references_to: *references_to,
            },
        }
    }
}

fn copy_indices(v: &Vec<u32>) -> (r: Vec<u32>)
    ensures
        r@ == v@,
{
    let mut out: Vec<u32> = Vec::new();
    let n = v.len();
    let mut i: usize = 0;
    while i < n
        invariant
            n == v@.len(),
            0 <= i <= n,
            out@ == v@.take(i as int),
        decreases n - i,
    {
        out.push(v[i]);
        proof {
            assert(out@ =~= v@.take(i + 1));
        }
        i = i + 1;
    }
    proof {
        assert(v@.take(n as int) =~= v@);
    }
    out
}

/// Indices narrowed to `u32` (wrapping, as an `as` cast does).
pub open spec fn narrowed(indices: Seq<usize>) -> Seq<u32> {
    indices.map_values(|i: usize| i as u32)
}

/// Narrows each index to `u32`, as an `as` cast does.
fn narrow_indices(indices: &[usize]) -> (r: Vec<u32>)
    ensures
        r@ == narrowed(indices@),
{
    let mut out: Vec<u32> = Vec::new();
    let n = indices.len();
    let mut i: usize = 0;
    while i < n
        invariant
            n == indices@.len(),
            0 <= i <= n,
            out@ == narrowed(indices@.take(i as int)),
        decreases n - i,
    {
        out.push(indices[i] as u32);
        proof {
            assert(out@ =~= narrowed(indices@.take(i + 1)));
        }
        i = i + 1;
    }
    proof {
        assert(indices@.take(n as int) =~= indices@);
    }
    out
}

/// A component relation as the parser lays it out.
#[derive(Debug)]
pub enum SourceRelation {
    Definition { referenced_from: Vec<usize>, defined_in_step: bool },
    Reference { references_to: usize },
}

/// The relation type for a parser relation, indices narrowed to `u32`.
pub open spec fn relation_type_of(source: SourceRelation) -> RelationTypeView {
    match source {
        SourceRelation::Definition { referenced_from, defined_in_step } => {
            RelationTypeView::Definition { referenced_from: narrowed(referenced_from@), defined_in_step }
        },
        SourceRelation::Reference { references_to } => RelationTypeView::Reference {
            references_to: references_to as u32,
        },
    }
}

/// Converting a parser relation keeps its kind and its fields: a definition
/// stays a definition with the same `defined_in_step` flag and the same
/// referring indices (each narrowed to `u32`), a reference stays a reference
/// to the same (narrowed) index.
pub proof fn lemma_relation_type_fields(source: SourceRelation)
    ensures
        source is Definition ==> (relation_type_of(source) is Definition),
        source is Definition ==> relation_type_of(source)->defined_in_step
            == source->defined_in_step,
        source is Definition ==> relation_type_of(source)->referenced_from.len()
            == source->referenced_from@.len(),
        source is Definition ==> (forall|j: int|
            0 <= j < source->referenced_from@.len() ==> #[trigger] relation_type_of(
                source,
            )->referenced_from[j] == source->referenced_from@[j] as u32),
        source is Reference ==> (relation_type_of(source) is Reference),
        source is Reference ==> relation_type_of(source)->references_to
            == source->references_to as u32,
{
}

impl ComponentRelationType {
    /// Converts a parser component relation.
    pub fn from_source(source: &SourceRelation) -> (r: ComponentRelationType)
        ensures
            r@ == relation_type_of(*source),
            source is Definition ==> (r is Definition),
            source is Definition ==> r->defined_in_step == source->defined_in_step,
            source is Definition ==> r->referenced_from@.len() == source->referenced_from@.len(),
            source is Definition ==> (forall|j: int|
                0 <= j < source->referenced_from@.len() ==> #[trigger] r->referenced_from@[j]
                    == source->referenced_from@[j] as u32),
            source is Reference ==> (r is Reference),
            source is Reference ==> r->references_to == source->references_to as u32,
    {
        proof {
            lemma_relation_type_fields(*source);
        }
        match source {
            SourceRelation::Definition { referenced_from, defined_in_step } => {
                ComponentRelationType::Definition {
                    referenced_from: narrow_indices(referenced_from.as_slice()),
                    defined_in_step: *defined_in_step,
                }
            },
            SourceRelation::Reference { references_to } => ComponentRelationType::Reference {
                references_to: *references_to as u32,
            },
        }
    }
}

/// Relation between an ingredient and other ingredients in the recipe.
#[derive(Debug, PartialEq)]
pub struct IngredientRelation {
    pub relation_type: ComponentRelationType,
    /// Target the reference points to. Only Some when relation_type is Reference.
    pub reference_target: Option<IngredientReferenceTarget>,
}

/// The value of an `IngredientRelation`.
pub struct IngredientRelationView {
    pub relation_type: RelationTypeView,
    pub reference_target: Option<IngredientReferenceTarget>,
}

impl View for IngredientRelation {
    type V = IngredientRelationView;

    open spec fn view(&self) -> IngredientRelationView {
        IngredientRelationView {
            relation_type: self.relation_type@,
            reference_target: self.reference_target,
        }
    }
}

impl Clone for IngredientRelation {
    fn clone(&self) -> (r: Self)
        ensures
            r@ == self@,
    {
        IngredientRelation {
            relation_type: self.relation_type.clone(),
            reference_target: self.reference_target,
        }
    }
}

/// The ingredient relation built from what the parser's relation reports: a
/// reference (with its target) when it refers to something, otherwise a
/// definition, made in a step unless the parser says otherwise.
pub open spec fn ingredient_relation_of(
    references_to: Option<(usize, IngredientReferenceTarget)>,
    referenced_from: Seq<usize>,
    defined_in_step: Option<bool>,
) -> IngredientRelationView {
    match references_to {
        Some((index, target)) => IngredientRelationView {
            relation_type: RelationTypeView::Reference { references_to: index as u32 },
            reference_target: Some(target),
        },
        None => IngredientRelationView {
            relation_type: RelationTypeView::Definition {
                referenced_from: narrowed(referenced_from),
                defined_in_step: match defined_in_step {
                    Some(b) => b,
                    None => true,
                },
            },
            reference_target: None,
        },
    }
}

/// The relation built from what the parser reports keeps it: a reference
/// has the reported (narrowed) index and exactly the reported target,
/// whichever of ingredient, step or section it is; a definition has no
/// target, the reported referring indices (narrowed), and is made in a step
/// unless the parser reports that it is not.
pub proof fn lemma_ingredient_relation_fields(
    references_to: Option<(usize, IngredientReferenceTarget)>,
    referenced_from: Seq<usize>,
    defined_in_step: Option<bool>,
)
    ensures
        forall|i: usize, t: IngredientReferenceTarget|
            references_to == Some((i, t)) ==> (#[trigger] ingredient_relation_of(
                Some((i, t)),
                referenced_from,
                defined_in_step,
            ).reference_target == Some(t)),
        forall|i: usize, t: IngredientReferenceTarget|
            references_to == Some((i, t)) ==> (#[trigger] ingredient_relation_of(
                Some((i, t)),
                referenced_from,
                defined_in_step,
            ).relation_type is Reference),
        forall|i: usize, t: IngredientReferenceTarget|
            references_to == Some((i, t)) ==> #[trigger] ingredient_relation_of(
                Some((i, t)),
                referenced_from,
                defined_in_step,
            ).relation_type->references_to == i as u32,
        references_to is None ==> (ingredient_relation_of(
            references_to,
            referenced_from,
            defined_in_step,
        ).reference_target is None),
        references_to is None ==> (ingredient_relation_of(
            references_to,
            referenced_from,
            defined_in_step,
        ).relation_type is Definition),
        references_to is None ==> ingredient_relation_of(
            references_to,
            referenced_from,
            defined_in_step,
        ).relation_type->defined_in_step == (defined_in_step != Some(false)),
        references_to is None ==> ingredient_relation_of(
            references_to,
            referenced_from,
            defined_in_step,
        ).relation_type->referenced_from.len() == referenced_from.len(),
        references_to is None ==> (forall|j: int|
            0 <= j < referenced_from.len() ==> #[trigger] ingredient_relation_of(
                references_to,
                referenced_from,
                defined_in_step,
            ).relation_type->referenced_from[j] == referenced_from[j] as u32),
{
}

impl IngredientRelation {
    /// Builds the relation from what the parser's relation reports.
    pub fn from_parts(
        references_to: Option<(usize, IngredientReferenceTarget)>,
        referenced_from: &[usize],
        defined_in_step: Option<bool>,
    ) -> (r: IngredientRelation)
        ensures
            r@ == ingredient_relation_of(references_to, referenced_from@, defined_in_step),
            r.reference_target is Some <==> r.relation_type is Reference,
            forall|i: usize, t: IngredientReferenceTarget|
                references_to == Some((i, t)) ==> r.reference_target == Some(t),
            forall|i: usize, t: IngredientReferenceTarget|
                references_to == Some((i, t)) ==> (r.relation_type is Reference),
            forall|i: usize, t: IngredientReferenceTarget|
                references_to == Some((i, t)) ==> r.relation_type->references_to == i as u32,
            references_to is None ==> (r.reference_target is None),
            references_to is None ==> (r.relation_type is Definition),
            references_to is None ==> r.relation_type->defined_in_step == (defined_in_step
                != Some(false)),
            references_to is None ==> r.relation_type->referenced_from@.len()
                == referenced_from@.len(),
            references_to is None ==> (forall|j: int|
                0 <= j < referenced_from@.len() ==> #[trigger] r.relation_type->referenced_from@[j]
                    == referenced_from@[j] as u32),
    {
        proof {
            lemma_ingredient_relation_fields(references_to, referenced_from@, defined_in_step);
        }
        match references_to {
            Some((index, target)) => IngredientRelation {
                relation_type: ComponentRelationType::Reference { references_to: index as u32 },
                reference_target: Some(target),
            },
            None => {
                let referenced = narrow_indices(referenced_from);
                let in_step = match defined_in_step {
                    Some(b) => b,
                    None => true,
                };
                IngredientRelation {
                    relation_type: ComponentRelationType::Definition {
                        referenced_from: referenced,
                        defined_in_step: in_step,
                    },
                    reference_target: None,
                }
            },
        }
    }

    /// Converts the parser's ingredient relation. A reference must record its
    /// target, as every relation that cooklang's parser builds does.
    pub fn from_parser(rel: &ParserIngredientRelation) -> (r: IngredientRelation)
        requires
            parser_target_recorded(*rel),
        ensures
            r@ == ingredient_relation_of(
                parser_references_to(*rel),
                parser_referenced_from(*rel),
                parser_defined_in_step(*rel),
            ),
            r.reference_target is Some <==> r.relation_type is Reference,
            forall|i: usize, t: IngredientReferenceTarget|
                parser_references_to(*rel) == Some((i, t)) ==> r.reference_target == Some(t),
            forall|i: usize, t: IngredientReferenceTarget|
                parser_references_to(*rel) == Some((i, t)) ==> (r.relation_type is Reference),
            forall|i: usize, t: IngredientReferenceTarget|
                parser_references_to(*rel) == Some((i, t)) ==> r.relation_type->references_to
                    == i as u32,
    {
        proof {
            lemma_ingredient_relation_fields(
                parser_references_to(*rel),
                parser_referenced_from(*rel),
                parser_defined_in_step(*rel),
            );
        }
        let references_to = if parser_relation_is_definition(rel) {
            None
        } else {
            parser_relation_references_to(rel)
        };
        if references_to.is_some() {
            IngredientRelation::from_parts(references_to, &[], None)
        } else {
            let referenced_from = parser_relation_referenced_from(rel);
            let defined_in_step = parser_relation_defined_in_step(rel);
            IngredientRelation::from_parts(references_to, referenced_from.as_slice(), defined_in_step)
        }
    }
}

/// Relation between a cookware item and other cookware in the recipe.
#[derive(Debug, PartialEq)]
pub struct ComponentRelation {
    pub relation_type: ComponentRelationType,
}

impl Clone for ComponentRelation {
    fn clone(&self) -> (r: Self)
        ensures
            r.relation_type@ == self.relation_type@,
    {
        ComponentRelation { relation_type: self.relation_type.clone() }
    }
}

impl ComponentRelation {
    /// Converts a parser component relation.
    pub fn from_source(source: &SourceRelation) -> (r: ComponentRelation)
        ensures
            r.relation_type@ == relation_type_of(*source),
            source is Definition ==> (r.relation_type is Definition),
            source is Definition ==> r.relation_type->defined_in_step == source->defined_in_step,
            source is Reference ==> (r.relation_type is Reference),
            source is Reference ==> r.relation_type->references_to == source->references_to as u32,
    {
        ComponentRelation { relation_type: ComponentRelationType::from_source(source) }
    }
}

} // verus!
