use vstd::prelude::*;

verus! {

/// One answerable option under a criterion.
#[derive(Debug, Default)]
pub struct Choice {
    pub title: String,
    pub explanation: String,
}

/// One question of the questionnaire, with its choices in order.
#[derive(Debug, Default)]
pub struct Criteria {
    pub title: String,
    pub choices: Vec<Choice>,
}

impl Choice {
    pub fn new(title: String, explanation: String) -> (r: Choice)
        ensures
            r.title@ == title@,
            r.explanation@ == explanation@,
    {
        Choice { title, explanation }
    }
}

impl Criteria {
    /// A criterion keeps its title and exactly the choices it was given, in order,
    /// so its choice count is that of its source record.
    pub fn new(title: String, choices: Vec<Choice>) -> (r: Criteria)
        ensures
            r.title@ == title@,
            r.choices@ == choices@,
            r.choices@.len() == choices@.len(),
    {
        Criteria { title, choices }
    }
}

} // verus!
