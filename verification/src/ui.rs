//! The wizard session and its transition handlers.
//!
//! The session owns the remaining interval queue, the interval currently
//! being assigned, and the growing list of recorded answers. Each user
//! event drives one transition: advancing pulls the next interval (the most
//! recently supplied one first) and classifies its tags; choosing a project
//! builds the answer and either records it at once (when the tags carried
//! an explicit service hint, skipping the service step) or holds it pending;
//! choosing a service completes the pending answer and advances. A partially
//! resolved interval never produces an answer. The front end only renders
//! the screen each transition names and feeds the user's choice back in.

use vstd::prelude::*;

use crate::answer::Answer;
use crate::answer::aggregate_answers;
use crate::answer::aggregate_spec;
use crate::answer::distinct_identities;
use crate::answer::group_sum;
use crate::answer::has_identity;
use crate::answer::sum_abs_minutes;
use crate::answer::sum_minutes;
use crate::datetime::Date;
use crate::datetime::DateTime;
use crate::mite::Mite;
use crate::model::project_selection::ProjectSelection;
use crate::tags::ClassifyError;
use crate::tags::any_malformed_hint;
use crate::tags::classify;
use crate::tags::explicit_service_id_of;
use crate::tags::hint_parts;
use crate::tags::id_opt_matches;
use crate::tags::note_of;
use crate::tags::views_of;
use crate::timew_input::TimewInput;
use crate::tw_entry::TWEntry;
use crate::tw_entry::duration_spec;

verus! {

/// What the front end should put on screen next.
#[derive(Clone, Copy, Debug, PartialEq, Eq, Structural)]
pub enum Screen {
    /// Offer the project catalog for the current interval.
    ProjectChoice,
    /// Offer the service catalog for the pending answer.
    ServiceChoice,
    /// Every interval is assigned; show the completion notice.
    Finished,
}

/// The wizard session: the catalog index, the remaining input, the interval
/// currently being assigned with what its tags yielded, the answer held
/// pending while a service is chosen, and the recorded answers.
#[derive(Debug)]
pub struct UIData {
    pub mite: Mite,
    pub input: TimewInput,
    pub current_entry: Option<TWEntry>,
    pub current_note: String,
    pub current_hint: Option<i64>,
    pub current_hint_tags: Vec<String>,
    pub current_minutes: i64,
    pub current_date: Date,
    pub pending: Option<Answer>,
    pub answers: Vec<Answer>,
}

/// The date an answer is billed on: the start stamp's date, or a fixed
/// placeholder when the interval has no start.
pub open spec fn entry_date(start: Option<DateTime>) -> Date {
    match start {
        Some(dt) => dt.date,
        None => Date { year: 0, month: 1, day: 1 },
    }
}

/// The answer built when a project is chosen for the current interval.
pub open spec fn resolved_answer(s: UIData, sel: ProjectSelection, service_id: i64) -> Answer {
    Answer {
        service_id,
        project_id: sel.id,
        note: s.current_note,
        minutes: s.current_minutes,
        date_at: s.current_date,
    }
}

/// The same answer with its service decided.
pub open spec fn with_service(a: Answer, id: i64) -> Answer {
    Answer {
        service_id: id,
        project_id: a.project_id,
        note: a.note,
        minutes: a.minutes,
        date_at: a.date_at,
    }
}

/// What advancing to the next interval does, given the queue it starts
/// from: an empty queue finishes the session; otherwise the last-supplied
/// interval is taken and classified, which either presents the project
/// choice with the derived note, hints and duration stored, or fails when a
/// service hint is malformed.
pub open spec fn advance_outcome(
    queue: Seq<TWEntry>,
    post: UIData,
    r: Result<Screen, ClassifyError>,
) -> bool {
    if queue.len() == 0 {
        &&& r == Ok::<Screen, ClassifyError>(Screen::Finished)
        &&& post.current_entry is None
        &&& post.input.data@ == queue
    } else {
        let entry = queue.last();
        let tags = views_of(entry.tags@);
        &&& post.input.data@ == queue.drop_last()
        &&& if any_malformed_hint(tags) {
            &&& r == Err::<Screen, ClassifyError>(ClassifyError::MalformedServiceHint)
            &&& post.current_entry is None
        } else {
            &&& r == Ok::<Screen, ClassifyError>(Screen::ProjectChoice)
            &&& post.current_entry == Some(entry)
            &&& post.current_note@ == note_of(tags)
            &&& id_opt_matches(post.current_hint, explicit_service_id_of(tags))
            &&& views_of(post.current_hint_tags@) == hint_parts(tags)
            &&& post.current_minutes == duration_spec(entry.start, entry.end)
            &&& post.current_date == entry_date(entry.start)
        }
    }
}

impl UIData {
    /// Open a session over the given input and catalog index, with no
    /// interval under assignment and no answers recorded yet.
    pub fn new(input: TimewInput, mite: Mite) -> (s: UIData)
        ensures
            s.mite == mite,
            s.input == input,
            s.current_entry is None,
            s.pending is None,
            s.answers@.len() == 0,
    {
        UIData {
            mite,
            input,
            current_entry: None,
            current_note: String::new(),
            current_hint: None,
            current_hint_tags: Vec::new(),
            current_minutes: 0,
            current_date: Date { year: 0, month: 1, day: 1 },
            pending: None,
            answers: Vec::new(),
        }
    }

    /// Take the next interval to assign: the most recently supplied one.
    /// Intervals supplied in order are therefore assigned in reverse order.
    pub fn get_next_entry(&mut self) -> (e: Option<TWEntry>)
        ensures
            old(self).input.data@.len() == 0 ==> e is None && final (self).input.data@ == old(self).input.data@,
            old(self).input.data@.len() > 0 ==> e == Some(old(self).input.data@.last()) && final (self).input.data@ == old(self).input.data@.drop_last(),
            final (self).input.settings == old(self).input.settings,
            final (self).mite == old(self).mite,
            final (self).current_entry == old(self).current_entry,
            final (self).current_note == old(self).current_note,
            final (self).current_hint == old(self).current_hint,
            final (self).current_hint_tags == old(self).current_hint_tags,
            final (self).current_minutes == old(self).current_minutes,
            final (self).current_date == old(self).current_date,
            final (self).pending == old(self).pending,
            final (self).answers == old(self).answers,
    {
        self.input.data.pop()
    }

    /// Advance the wizard: finish when no interval remains, otherwise take
    /// the next interval, classify its tags, and present the project
    /// choice. Fails only when a service-hint tag carries a malformed
    /// number; already recorded answers are kept in every case.
    pub fn get_next_page(&mut self) -> (r: Result<Screen, ClassifyError>)
        requires
            old(self).pending is None,
        ensures
            advance_outcome(old(self).input.data@, *final (self), r),
            final (self).answers == old(self).answers,
            final (self).pending is None,
            final (self).mite == old(self).mite,
            final (self).input.settings == old(self).input.settings,
    {
        match self.get_next_entry() {
            None => {
                self.current_entry = None;
                Ok(Screen::Finished)
            },
            Some(entry) => {
                match classify(&entry.tags) {
                    Err(e) => {
                        self.current_entry = None;
                        Err(e)
                    },
                    Ok(c) => {
                        let duration = entry.get_duration();
                        let date = match entry.start {
                            Some(dt) => dt.date,
                            None => Date { year: 0, month: 1, day: 1 },
                        };
                        self.current_note = c.note;
                        self.current_hint = c.explicit_service_id;
                        self.current_hint_tags = c.hint_tags;
                        self.current_minutes = duration;
                        self.current_date = date;
                        self.current_entry = Some(entry);
                        Ok(Screen::ProjectChoice)
                    },
                }
            },
        }
    }

    /// The user chose a project for the current interval. The answer is
    /// built from the stored note, duration and date. With an explicit
    /// service hint it is recorded at once and the wizard advances,
    /// skipping the service choice; without one it is held pending and the
    /// service choice is presented.
    pub fn callback_next(&mut self, selection: &ProjectSelection) -> (r: Result<
        Screen,
        ClassifyError,
    >)
        requires
            old(self).current_entry is Some,
            old(self).pending is None,
        ensures
            r == Ok::<Screen, ClassifyError>(Screen::ServiceChoice) <==> old(self).current_hint is None,
            final (self).mite == old(self).mite,
            final (self).input.settings == old(self).input.settings,
            old(self).current_hint matches Some(id) ==> ({
                &&& final (self).answers@ == old(self).answers@.push(
                    resolved_answer(*old(self), *selection, id),
                )
                &&& final (self).pending is None
                &&& advance_outcome(old(self).input.data@, *final (self), r)
            }),
            old(self).current_hint is None ==> ({
                &&& final (self).pending == Some(resolved_answer(*old(self), *selection, 0))
                &&& final (self).answers == old(self).answers
                &&& final (self).input == old(self).input
                &&& final (self).current_entry == old(self).current_entry
            }),
    {
        let mut note = String::new();
        core::mem::swap(&mut note, &mut self.current_note);
        let mut answer = Answer {
            project_id: selection.id,
            service_id: 0,
            minutes: self.current_minutes,
            note,
            date_at: self.current_date,
        };
        match self.current_hint {
            Some(id) => {
                answer.service_id = id;
                self.answers.push(answer);
                self.get_next_page()
            },
            None => {
                self.pending = Some(answer);
                Ok(Screen::ServiceChoice)
            },
        }
    }

    /// The user chose a service for the pending answer: record it with that
    /// service and advance to the next interval.
    pub fn callback_service_selected(&mut self, id: i64) -> (r: Result<Screen, ClassifyError>)
        requires
            old(self).pending is Some,
        ensures
            old(self).pending matches Some(p) ==> final (self).answers@ == old(self).answers@.push(with_service(p, id)),
            final (self).pending is None,
            final (self).mite == old(self).mite,
            final (self).input.settings == old(self).input.settings,
            advance_outcome(old(self).input.data@, *final (self), r),
    {
        let mut a = self.pending.take().unwrap();
        a.service_id = id;
        self.answers.push(a);
        self.get_next_page()
    }

    /// Close the session and aggregate what it recorded: one answer per
    /// distinct billing identity, minutes summed, in order of first
    /// appearance; the total of minutes is preserved exactly.
    pub fn get_answers(self) -> (out: Vec<Answer>)
        requires
            sum_abs_minutes(self.answers@) <= i64::MAX,
        ensures
            out@ == aggregate_spec(self.answers@),
            sum_minutes(out@) == sum_minutes(self.answers@),
            distinct_identities(out@),
            forall|k: int|
                0 <= k < out@.len() ==> (#[trigger] out@[k]).minutes == group_sum(
                    self.answers@,
                    out@[k],
                ),
            forall|k: int| 0 <= k < out@.len() ==> has_identity(self.answers@, #[trigger] out@[k]),
            forall|j: int|
                0 <= j < self.answers@.len() ==> has_identity(out@, #[trigger] self.answers@[j]),
    {
        aggregate_answers(self.answers)
    }
}

} // verus!
