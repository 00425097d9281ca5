//! The kinds of object that the detector tells apart.

use vstd::prelude::*;
use vstd::string::*;
use crate::text::text_eq;

verus! {

/// What a detection shows.
#[derive(Debug, Clone, Copy, PartialEq, Eq, Structural)]
pub enum Category {
    Animal,
    Human,
    Vehicle,
}

impl Category {
    /// The number that stands for the category in the detector's output.
    pub open spec fn number(self) -> nat {
        match self {
            Category::Animal => 1,
            Category::Human => 2,
            Category::Vehicle => 3,
        }
    }

    /// The text of `number`.
    pub open spec fn index_text(self) -> Seq<char> {
        match self {
            Category::Animal => "1"@,
            Category::Human => "2"@,
            Category::Vehicle => "3"@,
        }
    }

    /// The word for the category.
    pub open spec fn word(self) -> Seq<char> {
        match self {
            Category::Animal => "animal"@,
            Category::Human => "human"@,
            Category::Vehicle => "vehicle"@,
        }
    }

    /// The category that a number stands for.
    pub open spec fn of_number(number: nat) -> Option<Category> {
        if number == 1 {
            Some(Category::Animal)
        } else if number == 2 {
            Some(Category::Human)
        } else if number == 3 {
            Some(Category::Vehicle)
        } else {
            None
        }
    }

    /// The category that the text of a number stands for.
    pub open spec fn of_index_text(text: Seq<char>) -> Option<Category> {
        if text == "1"@ {
            Some(Category::Animal)
        } else if text == "2"@ {
            Some(Category::Human)
        } else if text == "3"@ {
            Some(Category::Vehicle)
        } else {
            None
        }
    }

    /// The number of the category, as text.
    pub fn index(&self) -> (r: String)
        ensures
            r@ == self.index_text(),
    {
        match self {
            Category::Animal => "1".to_owned(),
            Category::Human => "2".to_owned(),
            Category::Vehicle => "3".to_owned(),
        }
    }

    /// The word for the category.
    pub fn name(&self) -> (r: &'static str)
        ensures
            r@ == self.word(),
    {
        match self {
            Category::Animal => "animal",
            Category::Human => "human",
            Category::Vehicle => "vehicle",
        }
    }

    /// The category with the given number.
    pub fn from_number(number: u64) -> (r: Option<Category>)
        ensures
            r == Self::of_number(number as nat),
    {
        if number == 1 {
            Some(Category::Animal)
        } else if number == 2 {
            Some(Category::Human)
        } else if number == 3 {
            Some(Category::Vehicle)
        } else {
            None
        }
    }

    /// Reads the number of a category.
    pub fn parse(text: &str) -> (r: Option<Category>)
        ensures
            r == Self::of_index_text(text@),
    {
        if text_eq(text, "1") {
            Some(Category::Animal)
        } else if text_eq(text, "2") {
            Some(Category::Human)
        } else if text_eq(text, "3") {
            Some(Category::Vehicle)
        } else {
            None
        }
    }
}

} // verus!
