//! What a restaurant's kitchen offers.

use vstd::prelude::*;

verus! {

/// A breakfast. The guest picks the toast; the fruit is the kitchen's
/// choice.
pub struct Breakfast {
    pub toast: String,
    seasonal_fruit: String,
}

impl Breakfast {
    /// The toast of this breakfast.
    pub closed spec fn toast_text(&self) -> Seq<char> {
        self.toast@
    }

    /// The fruit of this breakfast.
    pub closed spec fn fruit_text(&self) -> Seq<char> {
        self.seasonal_fruit@
    }

    /// The summer breakfast with the toast asked for: its fruit is peaches.
    pub fn summer(toast: &str) -> (meal: Breakfast)
        ensures
            meal.toast_text() == toast@,
            meal.fruit_text() == "peaches"@,
    {
        Breakfast { toast: toast.to_owned(), seasonal_fruit: "peaches".to_owned() }
    }

    /// The fruit that comes with this breakfast.
    pub fn seasonal_fruit(&self) -> (fruit: &str)
        ensures
            fruit@ == self.fruit_text(),
    {
        self.seasonal_fruit.as_str()
    }
}

/// A starter.
#[derive(Clone, Copy, Debug, PartialEq, Eq, Structural)]
pub enum Appetizer {
    Soup,
    Salad,
}

} // verus!
