//! Quiz records and the quiz currently put to the player.
use vstd::prelude::*;

verus! {

/// A question with its right answer and some wrong ones.
#[derive(Debug, PartialEq)]
pub struct Quiz {
    pub question: String,
    pub answer: String,
    pub wrong_answers: Vec<String>,
}

/// A question as put to the player: all answers in display order, and the
/// index of the right one.
pub struct CurrentQuiz {
    pub question: String,
    pub answers: Vec<String>,
    pub correct_answer_id: u8,
}

impl CurrentQuiz {
    pub fn new(question: String, answers: Vec<String>, correct_answer_id: u8) -> (q: CurrentQuiz)
        ensures
            q.question == question,
            q.answers == answers,
            q.correct_answer_id == correct_answer_id,
    {
        CurrentQuiz { question, answers, correct_answer_id }
    }
}

impl Quiz {
    /// `q` puts this quiz to the player: same question, and its answers are
    /// the wrong ones in some order with the right one inserted at the index
    /// `q` names (kept to a byte).
    pub open spec fn presented_as(self, q: CurrentQuiz) -> bool {
        &&& q.question == self.question
        &&& exists|pos: int|
            0 <= pos <= self.wrong_answers@.len() && #[trigger] q.answers@.remove(pos).to_multiset()
                == self.wrong_answers@.to_multiset() && q.answers@[pos] == self.answer
                && q.correct_answer_id == pos as u8
    }

    /// Puts this quiz to the player with the wrong answers in the order
    /// `shuffled_wrong` and the right one inserted at index `position`.
    pub fn present(&self, shuffled_wrong: Vec<String>, position: usize) -> (q: CurrentQuiz)
        requires
            position <= shuffled_wrong@.len(),
        ensures
            q.question == self.question,
            q.answers@ == shuffled_wrong@.insert(position as int, self.answer),
            q.correct_answer_id == position as u8,
    {
        let mut answers = shuffled_wrong;
        answers.insert(position, self.answer.clone());
        #[verifier::truncate]
        let id = position as u8;
        CurrentQuiz::new(self.question.clone(), answers, id)
    }

    /// A copy of the wrong answers, in their order.
    pub(crate) fn copy_wrong_answers(&self) -> (v: Vec<String>)
        ensures
            v@ == self.wrong_answers@,
    {
        let mut v: Vec<String> = Vec::new();
        let mut i: usize = 0;
        while i < self.wrong_answers.len()
            invariant
                i <= self.wrong_answers@.len(),
                v@ == self.wrong_answers@.subrange(0, i as int),
            decreases self.wrong_answers@.len() - i,
        {
            v.push(self.wrong_answers[i].clone());
            i = i + 1;
        }
        assert(self.wrong_answers@.subrange(0, i as int) =~= self.wrong_answers@);
        v
    }
}

} // verus!
