//! The components of a recipe: ingredients, cookware, timers, and the text
//! and inline quantities between them. `N` is the type of the numbers in
//! their amounts.
use vstd::prelude::*;
use crate::quantity::Amount;
use crate::reference::RecipeReference;
use crate::relation::{ComponentRelation, IngredientRelation};

verus! {

/// Represents an ingredient in the recipe
#[derive(Debug, PartialEq)]
pub struct Ingredient<N> {
    pub name: String,
    /// Alternate name from cooklang's @name|alias{} syntax
    pub alias: Option<String>,
    pub amount: Option<Amount<N>>,
    pub descriptor: Option<String>,
    /// Reference to another recipe file, if this ingredient is a recipe reference
    pub reference: Option<RecipeReference>,
    /// How this ingredient relates to other ingredients (definition / reference)
    pub relation: IngredientRelation,
}

/// Represents a piece of cookware used in the recipe
#[derive(Debug, PartialEq)]
pub struct Cookware<N> {
    pub name: String,
    pub alias: Option<String>,
    pub amount: Option<Amount<N>>,
    pub note: Option<String>,
    pub relation: ComponentRelation,
}

/// Represents a timer in the recipe
#[derive(Debug, PartialEq)]
pub struct Timer<N> {
    pub name: Option<String>,
    pub amount: Option<Amount<N>>,
}

impl<N: Copy> Clone for Ingredient<N> {
    fn clone(&self) -> (r: Self)
        ensures
            r.name == self.name,
            r.alias == self.alias,
            r.amount == self.amount,
            r.descriptor == self.descriptor,
            r.reference is Some <==> self.reference is Some,
            self.reference is Some ==> r.reference.unwrap().name == self.reference.unwrap().name
                && r.reference.unwrap().components@ == self.reference.unwrap().components@,
            r.relation@ == self.relation@,
    {
        let reference = match &self.reference {
            Some(rr) => Some(rr.clone()),
            None => None,
        };
        Ingredient {
            name: self.name.clone(),
            alias: self.alias.clone(),
            amount: self.amount.clone(),
            descriptor: self.descriptor.clone(),
            reference,
            relation: self.relation.clone(),
        }
    }
}

impl<N: Copy> Clone for Cookware<N> {
    fn clone(&self) -> (r: Self)
        ensures
            r.name == self.name,
            r.alias == self.alias,
            r.amount == self.amount,
            r.note == self.note,
            r.relation.relation_type@ == self.relation.relation_type@,
    {
        Cookware {
            name: self.name.clone(),
            alias: self.alias.clone(),
            amount: self.amount.clone(),
            note: self.note.clone(),
            relation: self.relation.clone(),
        }
    }
}

impl<N: Copy> Clone for Timer<N> {
    fn clone(&self) -> (r: Self)
        ensures
            r == *self,
    {
        Timer { name: self.name.clone(), amount: self.amount.clone() }
    }
}

impl<N> Timer<N> {
    /// Builds a timer from the parser's timer name and amount: the name is
    /// always present, empty when the parser has none.
    pub fn from_parts(name: &Option<String>, amount: Option<Amount<N>>) -> (r: Timer<N>)
        ensures
            r.name is Some,
            r.name.unwrap()@ == match name {
                Some(n) => n@,
                None => Seq::<char>::empty(),
            },
            r.amount == amount,
    {
        let name = match name {
            Some(n) => n.clone(),
            None => String::new(),
        };
        Timer { name: Some(name), amount }
    }
}

/// Types of components that can be referenced in a recipe
#[derive(Debug, PartialEq)]
pub enum Component<N> {
    IngredientComponent(Ingredient<N>),
    CookwareComponent(Cookware<N>),
    TimerComponent(Timer<N>),
    TextComponent(String),
    InlineQuantityComponent(Amount<N>),
}

} // verus!
