use vstd::prelude::*;

use crate::content::Criteria;
use crate::rating::Rating;

verus! {

/// The questionnaire's state: the content, the selected criterion and the
/// ratings given to each criterion's choices.
pub struct App {
    pub criterias: Vec<Criteria>,
    pub selected_criteria: usize,
    pub answers: Vec<Vec<Rating>>,
}

/// The part of the state that is saved between sessions: navigation and answers,
/// without the content.
pub struct Snapshot {
    pub selected_criteria: usize,
    pub answers: Vec<Vec<Rating>>,
}

/// An input of one update tick.
#[derive(Clone, Copy, Debug, PartialEq, Eq, Structural)]
pub enum Event {
    /// A click on the group of the choice at this index of the current criterion.
    ClickChoice(usize),
    /// The "previous" button.
    Previous,
    /// The "next" button.
    Next,
}

/// The ratings as sequences.
pub open spec fn rows_view(answers: Seq<Vec<Rating>>) -> Seq<Seq<Rating>> {
    answers.map_values(|row: Vec<Rating>| row@)
}

/// `n` neutral ratings.
pub open spec fn neutral_row(n: nat) -> Seq<Rating> {
    Seq::new(n, |i: int| Rating::Neutral)
}

/// The answers that replace ones of the wrong outer length: one row per
/// criterion, each a single neutral rating.
pub open spec fn fresh_answers(n: nat) -> Seq<Seq<Rating>> {
    Seq::new(n, |i: int| seq![Rating::Neutral])
}

/// The selected index after normalising: out of range goes back to 0.
pub open spec fn clamped_index(sel: nat, n: nat) -> nat {
    if sel >= n {
        0
    } else {
        sel
    }
}

/// The answers after normalising, given the selected index after clamping and
/// each criterion's choice count: a wrong outer length replaces them all, then a
/// selected row whose length differs from its choice count becomes as many
/// neutral ratings as there are criteria.
pub open spec fn normalized_answers(answers: Seq<Seq<Rating>>, sel: nat, counts: Seq<nat>) -> Seq<
    Seq<Rating>,
> {
    let n = counts.len();
    let resized = if answers.len() != n {
        fresh_answers(n)
    } else {
        answers
    };
    if sel < n && resized[sel as int].len() != counts[sel as int] {
        resized.update(sel as int, neutral_row(n))
    } else {
        resized
    }
}

/// Whether a click on choice `i` of criterion `sel` reaches a rating: the choice
/// exists and the answers hold a rating for it.
pub open spec fn click_applies(answers: Seq<Seq<Rating>>, sel: nat, counts: Seq<nat>, i: nat) -> bool {
    &&& sel < counts.len()
    &&& i < counts[sel as int]
    &&& sel < answers.len()
    &&& i < answers[sel as int].len()
}

/// The answers after a click on choice `i` of criterion `sel`.
pub open spec fn clicked_answers(answers: Seq<Seq<Rating>>, sel: nat, counts: Seq<nat>, i: nat) -> Seq<
    Seq<Rating>,
> {
    if click_applies(answers, sel, counts, i) {
        answers.update(
            sel as int,
            answers[sel as int].update(i as int, answers[sel as int][i as int].cycled_spec()),
        )
    } else {
        answers
    }
}

/// The selected index after "previous": it goes down only from above 1.
pub open spec fn previous_index(sel: nat) -> nat {
    if sel > 1 {
        (sel - 1) as nat
    } else {
        sel
    }
}

/// The selected index after "next": it goes up only while below the last criterion.
pub open spec fn next_index(sel: nat, n: nat) -> nat {
    if sel + 1 < n {
        sel + 1
    } else {
        sel
    }
}

impl Snapshot {
    pub open spec fn answers_view(&self) -> Seq<Seq<Rating>> {
        rows_view(self.answers@)
    }

    /// Whether this snapshot holds exactly the navigation and answers of `a`.
    pub open spec fn is_snapshot_of(&self, a: App) -> bool {
        &&& self.selected_criteria == a.selected_criteria
        &&& self.answers_view() == a.answers_view()
    }
}

impl App {
    pub open spec fn answers_view(&self) -> Seq<Seq<Rating>> {
        rows_view(self.answers@)
    }

    /// Each criterion's number of choices.
    pub open spec fn choice_counts(&self) -> Seq<nat> {
        self.criterias@.map_values(|c: Criteria| c.choices@.len())
    }

    /// Whether `self` is the state restored from `s` over the content `criterias`.
    pub open spec fn is_restored_from(&self, criterias: Seq<Criteria>, s: Snapshot) -> bool {
        &&& self.criterias@ == criterias
        &&& self.selected_criteria == s.selected_criteria
        &&& self.answers_view() == s.answers_view()
    }
}

/// "next" never moves the selection past the last criterion, and "previous"
/// never moves it below 1: each either leaves the index where it was or keeps
/// it within those bounds, so neither reaches index 0 from another index.
pub proof fn lemma_navigation_bounds(sel: nat, n: nat)
    ensures
        next_index(sel, n) >= sel,
        next_index(sel, n) > sel ==> next_index(sel, n) <= n - 1,
        sel < n ==> next_index(sel, n) < n,
        previous_index(sel) <= sel,
        previous_index(sel) < sel ==> previous_index(sel) >= 1,
        next_index(sel, n) == 0 ==> sel == 0,
        previous_index(sel) == 0 ==> sel == 0,
{
}

/// Normalising leaves one row of answers per criterion, whatever the state.
pub proof fn lemma_normalized_length(answers: Seq<Seq<Rating>>, sel: nat, counts: Seq<nat>)
    ensures
        normalized_answers(answers, sel, counts).len() == counts.len(),
{
}

/// Normalising twice does what normalising once does.
pub proof fn lemma_normalize_idempotent(answers: Seq<Seq<Rating>>, sel: nat, counts: Seq<nat>)
    ensures
        clamped_index(clamped_index(sel, counts.len()), counts.len()) == clamped_index(
            sel,
            counts.len(),
        ),
        normalized_answers(
            normalized_answers(answers, clamped_index(sel, counts.len()), counts),
            clamped_index(sel, counts.len()),
            counts,
        ) == normalized_answers(answers, clamped_index(sel, counts.len()), counts),
{
    let c = clamped_index(sel, counts.len());
    let once = normalized_answers(answers, c, counts);
    if c < counts.len() && once[c as int].len() != counts[c as int] {
        assert(once.update(c as int, neutral_row(counts.len())) =~= once);
    }
}

/// Saving a state and restoring the snapshot over the same content gives back
/// the same content, selection and answers.
pub proof fn lemma_snapshot_round_trip(a: App, s: Snapshot, b: App)
    requires
        s.is_snapshot_of(a),
        b.is_restored_from(a.criterias@, s),
    ensures
        b.criterias@ == a.criterias@,
        b.selected_criteria == a.selected_criteria,
        b.answers_view() == a.answers_view(),
{
}

/// A row of `n` neutral ratings.
fn neutral_vec(n: usize) -> (r: Vec<Rating>)
    ensures
        r@ == neutral_row(n as nat),
{
    let mut r: Vec<Rating> = Vec::new();
    let mut k: usize = 0;
    while k < n
        invariant
            k <= n,
            r@ == neutral_row(k as nat),
        decreases n - k,
    {
        r.push(Rating::Neutral);
        k = k + 1;
        assert(r@ =~= neutral_row(k as nat));
    }
    r
}

/// `n` rows of a single neutral rating.
fn fresh_answers_vec(n: usize) -> (r: Vec<Vec<Rating>>)
    ensures
        rows_view(r@) == fresh_answers(n as nat),
{
    let mut r: Vec<Vec<Rating>> = Vec::new();
    let mut k: usize = 0;
    while k < n
        invariant
            k <= n,
            rows_view(r@) == fresh_answers(k as nat),
        decreases n - k,
    {
        let row = neutral_vec(1);
        assert(row@ =~= seq![Rating::Neutral]);
        let ghost prev = r@;
        r.push(row);
        k = k + 1;
        assert(rows_view(r@) =~= rows_view(prev).push(seq![Rating::Neutral]));
        assert(rows_view(r@) =~= fresh_answers(k as nat));
    }
    r
}

impl App {
    /// A fresh state over the given content: the first criterion selected and no
    /// answers yet.
    pub fn with_criterias(criterias: Vec<Criteria>) -> (r: App)
        ensures
            r.criterias@ == criterias@,
            r.selected_criteria == 0,
            r.answers@.len() == 0,
    {
        App { criterias, selected_criteria: 0, answers: Vec::new() }
    }

    /// Brings the state back in shape at the start of a tick: an out-of-range
    /// selection goes back to the first criterion, answers of the wrong outer
    /// length are replaced, and a selected row of the wrong length is reset.
    pub fn normalize(&mut self)
        ensures
            final(self).criterias == old(self).criterias,
            final(self).selected_criteria == clamped_index(
                old(self).selected_criteria as nat,
                old(self).criterias@.len(),
            ),
            final(self).answers_view() == normalized_answers(
                old(self).answers_view(),
                final(self).selected_criteria as nat,
                old(self).choice_counts(),
            ),
            final(self).answers@.len() == final(self).criterias@.len(),
    {
        let n = self.criterias.len();
        if self.selected_criteria >= n {
            self.selected_criteria = 0;
        }
        let ghost counts = self.choice_counts();
        let ghost before = self.answers_view();
        if self.answers.len() != n {
            self.answers = fresh_answers_vec(n);
        }
        let ghost resized = self.answers_view();
        assert(resized == if before.len() != n { fresh_answers(n as nat) } else { before });
        let s = self.selected_criteria;
        if s < n {
            let count = self.criterias[s].choices.len();
            assert(count == counts[s as int]);
            if self.answers[s].len() != count {
                self.answers[s] = neutral_vec(n);
                assert(self.answers_view() =~= resized.update(s as int, neutral_row(n as nat)));
            }
        }
    }

    /// A click on the group of choice `i` of the current criterion: its rating
    /// moves one step along the cycle, where the choice and its rating exist.
    pub fn click_choice(&mut self, i: usize)
        ensures
            final(self).criterias == old(self).criterias,
            final(self).selected_criteria == old(self).selected_criteria,
            final(self).answers_view() == clicked_answers(
                old(self).answers_view(),
                old(self).selected_criteria as nat,
                old(self).choice_counts(),
                i as nat,
            ),
    {
        let s = self.selected_criteria;
        if s < self.criterias.len() && i < self.criterias[s].choices.len() && s
            < self.answers.len() && i < self.answers[s].len() {
            let ghost before = self.answers_view();
            let r = self.answers[s][i].cycled();
            self.answers[s][i] = r;
            assert(self.answers_view() =~= before.update(
                s as int,
                before[s as int].update(i as int, r),
            ));
        }
    }

    /// The "previous" button: one criterion back, but only from above index 1.
    pub fn previous(&mut self)
        ensures
            final(self).criterias == old(self).criterias,
            final(self).answers == old(self).answers,
            final(self).selected_criteria == previous_index(old(self).selected_criteria as nat),
    {
        if self.selected_criteria > 1 {
            self.selected_criteria = self.selected_criteria - 1;
        }
    }

    /// The "next" button: one criterion on, but never past the last one.
    pub fn next(&mut self)
        ensures
            final(self).criterias == old(self).criterias,
            final(self).answers == old(self).answers,
            final(self).selected_criteria == next_index(
                old(self).selected_criteria as nat,
                old(self).criterias@.len(),
            ),
    {
        if self.selected_criteria < self.criterias.len() && self.selected_criteria + 1
            < self.criterias.len() {
            self.selected_criteria = self.selected_criteria + 1;
        }
    }

    /// Applies one input of a tick.
    pub fn handle(&mut self, e: Event)
        ensures
            final(self).criterias == old(self).criterias,
            e matches Event::ClickChoice(i) ==> {
                &&& final(self).selected_criteria == old(self).selected_criteria
                &&& final(self).answers_view() == clicked_answers(
                    old(self).answers_view(),
                    old(self).selected_criteria as nat,
                    old(self).choice_counts(),
                    i as nat,
                )
            },
            e is Previous ==> {
                &&& final(self).answers == old(self).answers
                &&& final(self).selected_criteria == previous_index(
                    old(self).selected_criteria as nat,
                )
            },
            e is Next ==> {
                &&& final(self).answers == old(self).answers
                &&& final(self).selected_criteria == next_index(
                    old(self).selected_criteria as nat,
                    old(self).criterias@.len(),
                )
            },
    {
        match e {
            Event::ClickChoice(i) => self.click_choice(i),
            Event::Previous => self.previous(),
            Event::Next => self.next(),
        }
    }

    /// The rating of choice `i` of the current criterion, where the answers hold one.
    pub fn rating_at(&self, i: usize) -> (r: Option<Rating>)
        ensures
            (self.selected_criteria < self.answers@.len() && i < self.answers@[self.selected_criteria as int]@.len())
                ==> r == Some(self.answers_view()[self.selected_criteria as int][i as int]),
            !(self.selected_criteria < self.answers@.len() && i < self.answers@[self.selected_criteria as int]@.len())
                ==> r is None,
    {
        let s = self.selected_criteria;
        if s < self.answers.len() && i < self.answers[s].len() {
            Some(self.answers[s][i])
        } else {
            None
        }
    }

    /// The progress shown above the current criterion: its index and the last
    /// index, where a criterion is selected.
    pub fn progress(&self) -> (r: Option<(usize, usize)>)
        ensures
            self.selected_criteria < self.criterias@.len() ==> r == Some(
                (self.selected_criteria, (self.criterias@.len() - 1) as usize),
            ),
            self.selected_criteria >= self.criterias@.len() ==> r is None,
    {
        if self.selected_criteria < self.criterias.len() {
            Some((self.selected_criteria, self.criterias.len() - 1))
        } else {
            None
        }
    }

    /// The navigation and answers of this state, to be saved.
    pub fn snapshot(&self) -> (r: Snapshot)
        ensures
            r.is_snapshot_of(*self),
    {
        let mut answers: Vec<Vec<Rating>> = Vec::new();
        let mut k: usize = 0;
        while k < self.answers.len()
            invariant
                k <= self.answers@.len(),
                rows_view(answers@) == self.answers_view().take(k as int),
            decreases self.answers@.len() - k,
        {
            let src = &self.answers[k];
            let mut row: Vec<Rating> = Vec::new();
            let mut j: usize = 0;
            while j < src.len()
                invariant
                    j <= src@.len(),
                    row@ == src@.take(j as int),
                decreases src@.len() - j,
            {
                row.push(src[j]);
                j = j + 1;
                assert(row@ =~= src@.take(j as int));
            }
            assert(row@ =~= src@);
            let ghost prev = answers@;
            answers.push(row);
            k = k + 1;
            assert(rows_view(answers@) =~= rows_view(prev).push(row@));
            assert(rows_view(answers@) =~= self.answers_view().take(k as int));
        }
        assert(rows_view(answers@) =~= self.answers_view());
        Snapshot { selected_criteria: self.selected_criteria, answers }
    }

    /// The state that a saved snapshot restores over the given content.
    pub fn restore(criterias: Vec<Criteria>, snapshot: Snapshot) -> (r: App)
        ensures
            r.is_restored_from(criterias@, snapshot),
    {
        App { criterias, selected_criteria: snapshot.selected_criteria, answers: snapshot.answers }
    }
}

} // verus!
