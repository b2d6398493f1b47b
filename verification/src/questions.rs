//! The questions of the quiz. They are read and never written: the quiz
//! only looks things up in them.

use vstd::prelude::*;

verus! {

/// One of the answers that a question offers.
#[derive(Debug, PartialEq, Eq)]
pub struct Choice {
    pub id: u8,
    pub text: String,
}

/// A `Choice` as a mathematical value.
pub struct ChoiceView {
    pub id: u8,
    pub text: Seq<char>,
}

impl View for Choice {
    type V = ChoiceView;

    open spec fn view(&self) -> ChoiceView {
        ChoiceView { id: self.id, text: self.text@ }
    }
}

impl Clone for Choice {
    fn clone(&self) -> (copy: Choice)
        ensures
            copy@ == self@,
    {
        Choice { id: self.id, text: self.text.clone() }
    }
}

/// A question of the quiz: the drawing it is about, what it asks, the
/// answers it offers, in their order, and whether it also asks for a text.
#[derive(Debug, PartialEq, Eq)]
pub struct Question {
    pub qid: u8,
    pub filename: String,
    pub prompt: String,
    pub choices: Vec<Choice>,
    pub contains_free_response: bool,
}

/// A `Question` as a mathematical value.
pub struct QuestionView {
    pub qid: u8,
    pub filename: Seq<char>,
    pub prompt: Seq<char>,
    pub choices: Seq<ChoiceView>,
    pub contains_free_response: bool,
}

impl View for Question {
    type V = QuestionView;

    open spec fn view(&self) -> QuestionView {
        QuestionView {
            qid: self.qid,
            filename: self.filename@,
            prompt: self.prompt@,
            choices: self.choices@.map_values(|c: Choice| c@),
            contains_free_response: self.contains_free_response,
        }
    }
}

impl QuestionView {
    /// What is known of a question that does not exist: nothing but its
    /// number.
    pub open spec fn unknown(qid: u8) -> QuestionView {
        QuestionView {
            qid,
            filename: Seq::empty(),
            prompt: Seq::empty(),
            choices: Seq::empty(),
            contains_free_response: false,
        }
    }
}

impl Clone for Question {
    fn clone(&self) -> (copy: Question)
        ensures
            copy@ == self@,
    {
        let mut choices: Vec<Choice> = Vec::new();
        let mut i: usize = 0;
        while i < self.choices.len()
            invariant
                i <= self.choices.len(),
                choices@.len() == i,
                forall|j: int| 0 <= j < i ==> (#[trigger] choices@[j])@ == self.choices@[j]@,
            decreases self.choices.len() - i,
        {
            choices.push(self.choices[i].clone());
            i += 1;
        }
        let copy = Question {
            qid: self.qid,
            filename: self.filename.clone(),
            prompt: self.prompt.clone(),
            choices,
            contains_free_response: self.contains_free_response,
        };
        assert(copy@.choices =~= self@.choices);
        copy
    }
}

/// The most questions that a quiz can hold, and the most answers that a
/// question can offer.
pub const MAX_ENTRIES: usize = 255;

/// All questions of the quiz. A question is known by its place: the first
/// is question 0.
pub struct QuestionBank {
    questions: Vec<Question>,
}

impl View for QuestionBank {
    type V = Seq<QuestionView>;

    closed spec fn view(&self) -> Seq<QuestionView> {
        self.questions@.map_values(|q: Question| q@)
    }
}

/// Questions as a quiz can hold them: no more than `MAX_ENTRIES`, each
/// numbered by its place and with no more than `MAX_ENTRIES` answers.
pub open spec fn bank_valid(bank: Seq<QuestionView>) -> bool {
    &&& bank.len() <= MAX_ENTRIES
    &&& forall|i: int|
        0 <= i < bank.len() ==> (#[trigger] bank[i]).qid == i && bank[i].choices.len()
            <= MAX_ENTRIES
}

/// The number of answers that a question offers; none where the question
/// does not exist.
pub open spec fn choices_of(bank: Seq<QuestionView>, qid: u8) -> nat {
    if qid < bank.len() {
        bank[qid as int].choices.len()
    } else {
        0
    }
}

/// What is known of a question: the question itself, or nothing but its
/// number where it does not exist.
pub open spec fn question_info(bank: Seq<QuestionView>, qid: u8) -> QuestionView {
    if qid < bank.len() {
        bank[qid as int]
    } else {
        QuestionView::unknown(qid)
    }
}

impl QuestionBank {
    /// The questions are as a quiz can hold them.
    pub open spec fn wf(&self) -> bool {
        bank_valid(self@)
    }

    /// A quiz without questions.
    pub fn new() -> (bank: QuestionBank)
        ensures
            bank.wf(),
            bank@ == Seq::<QuestionView>::empty(),
    {
        let bank = QuestionBank { questions: Vec::new() };
        assert(bank@ =~= Seq::<QuestionView>::empty());
        bank
    }

    /// Adds a question at the end and hands back its number. Where the quiz
    /// is full, or the question offers more answers than one can hold,
    /// nothing is added.
    pub fn add(
        &mut self,
        filename: String,
        prompt: String,
        choices: Vec<Choice>,
        contains_free_response: bool,
    ) -> (qid: Option<u8>)
        requires
            old(self).wf(),
        ensures
            final(self).wf(),
            qid is Some == (old(self)@.len() < MAX_ENTRIES && choices@.len() <= MAX_ENTRIES),
            qid is None ==> final(self)@ == old(self)@,
            qid matches Some(n) ==> n == old(self)@.len() && final(self)@ == old(self)@.push(
                QuestionView {
                    qid: n,
                    filename: filename@,
                    prompt: prompt@,
                    choices: choices@.map_values(|c: Choice| c@),
                    contains_free_response,
                },
            ),
    {
        if self.questions.len() >= MAX_ENTRIES || choices.len() > MAX_ENTRIES {
            return None;
        }
        let n: u8 = self.questions.len() as u8;
        let question = Question { qid: n, filename, prompt, choices, contains_free_response };
        self.questions.push(question);
        assert(self@ =~= old(self)@.push(question@));
        Some(n)
    }

    /// The number of questions.
    pub fn total(&self) -> (n: u8)
        requires
            self.wf(),
        ensures
            n == self@.len(),
    {
        self.questions.len() as u8
    }

    /// The number of answers that a question offers; none where the
    /// question does not exist.
    pub fn choice_count(&self, qid: u8) -> (n: u8)
        requires
            self.wf(),
        ensures
            n == choices_of(self@, qid),
    {
        if (qid as usize) < self.questions.len() {
            assert(self@[qid as int] == self.questions@[qid as int]@);
            self.questions[qid as usize].choices.len() as u8
        } else {
            0
        }
    }

    /// The question with the given number, if it exists.
    pub fn question(&self, qid: u8) -> (found: Option<&Question>)
        ensures
            found is Some == (qid < self@.len()),
            found matches Some(q) ==> q@ == self@[qid as int],
    {
        if (qid as usize) < self.questions.len() {
            Some(&self.questions[qid as usize])
        } else {
            None
        }
    }
}

} // verus!
