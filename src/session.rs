use vstd::prelude::*;
use crate::record::{owned, Record, RowView};

verus! {

/// The pause, in milliseconds, after each call to the translation service.
pub const PAUSE_MILLIS: u64 = 500;

/// The language the service is asked for first.
pub open spec fn english() -> Seq<char> {
    "EN"@
}

/// The language the service is asked for second.
pub open spec fn german() -> Seq<char> {
    "DE"@
}

/// What the program around the session reports to it.
#[derive(Clone, Debug, PartialEq, Eq)]
pub enum Event {
    /// The next row of the input table.
    Row(Record),
    /// The input table has no more rows.
    EndOfInput,
    /// The translation service answered with this text.
    Translated(String),
    /// The requested pause is over.
    Resumed,
}

/// What the session asks the program around it to do next.
#[derive(Clone, Debug, PartialEq, Eq)]
pub enum Action {
    /// Ask the translation service for `text` in `target_lang`.
    Translate { text: String, target_lang: String },
    /// Wait this long, then report `Resumed`.
    Pause { millis: u64 },
    /// Write this translated row to the output table, then report the next row.
    Write(Record),
    /// The run is over: flush the output table.
    Finish,
}

pub enum EventView {
    Row(RowView),
    EndOfInput,
    Translated(Seq<char>),
    Resumed,
}

pub enum ActionView {
    Translate { text: Seq<char>, target_lang: Seq<char> },
    Pause { millis: u64 },
    Write(RowView),
    Finish,
}

impl View for Event {
    type V = EventView;

    open spec fn view(&self) -> EventView {
        match self {
            Event::Row(r) => EventView::Row(r@),
            Event::EndOfInput => EventView::EndOfInput,
            Event::Translated(s) => EventView::Translated(s@),
            Event::Resumed => EventView::Resumed,
        }
    }
}

impl View for Action {
    type V = ActionView;

    open spec fn view(&self) -> ActionView {
        match self {
            Action::Translate { text, target_lang } => ActionView::Translate {
                text: text@,
                target_lang: target_lang@,
            },
            Action::Pause { millis } => ActionView::Pause { millis: *millis },
            Action::Write(r) => ActionView::Write(r@),
            Action::Finish => ActionView::Finish,
        }
    }
}

/// Where a run stands, with the row in progress.
pub enum Stage {
    /// Waiting for the next row.
    Ready,
    /// Waiting for the English translation of the row.
    English(RowView),
    /// Pausing after the English translation.
    AfterEnglish(RowView),
    /// Waiting for the German translation of the row.
    German(RowView),
    /// Pausing after the German translation.
    AfterGerman(RowView),
    /// The run is over.
    Done,
}

/// Whether a row may still be translated after `count` rows were.
pub open spec fn may_translate(count: nat, limit: Option<u16>) -> bool {
    match limit {
        Some(l) => count < l,
        None => true,
    }
}

/// Whether `ev` is an event that `stage` waits for.
pub open spec fn expected(stage: Stage, ev: EventView) -> bool {
    match stage {
        Stage::Ready => ev is Row || ev is EndOfInput,
        Stage::English(_) => ev is Translated,
        Stage::AfterEnglish(_) => ev is Resumed,
        Stage::German(_) => ev is Translated,
        Stage::AfterGerman(_) => ev is Resumed,
        Stage::Done => false,
    }
}

/// The next stage and the action, for an expected event.
pub open spec fn next(stage: Stage, count: nat, limit: Option<u16>, ev: EventView) -> (Stage, ActionView) {
    match stage {
        Stage::Ready => match ev {
            EventView::Row(r) => if may_translate(count, limit) {
                (Stage::English(r), ActionView::Translate { text: r.label, target_lang: english() })
            } else {
                (Stage::Done, ActionView::Finish)
            },
            _ => (Stage::Done, ActionView::Finish),
        },
        Stage::English(r) => {
            let t = RowView { label_en: Some(ev->Translated_0), ..r };
            (Stage::AfterEnglish(t), ActionView::Pause { millis: PAUSE_MILLIS })
        },
        Stage::AfterEnglish(r) => (
            Stage::German(r),
            ActionView::Translate { text: r.label, target_lang: german() },
        ),
        Stage::German(r) => {
            let t = RowView { label_de: Some(ev->Translated_0), ..r };
            (Stage::AfterGerman(t), ActionView::Pause { millis: PAUSE_MILLIS })
        },
        Stage::AfterGerman(r) => (Stage::Ready, ActionView::Write(r)),
        Stage::Done => (Stage::Done, ActionView::Finish),
    }
}

/// Output row `w` carries input row `r` through, with both translations.
pub open spec fn carries(w: RowView, r: RowView) -> bool {
    &&& w.code == r.code
    &&& w.label == r.label
    &&& w.label_en is Some
    &&& w.label_de is Some
}

enum Phase {
    Ready,
    English(Record),
    AfterEnglish(Record),
    German(Record),
    AfterGerman(Record),
    Done,
}

/// The decisions of one translation run over a table: which row to
/// translate, in which language, when to pause, when to write a row and
/// when to stop.
pub struct Session {
    limit: Option<u16>,
    translated: u64,
    phase: Phase,
    rows: Ghost<Seq<RowView>>,
    written: Ghost<Seq<RowView>>,
}

impl Session {
    /// The row limit the run was started with; `None` is no limit.
    pub closed spec fn limit(&self) -> Option<u16> {
        self.limit
    }

    /// The number of rows translated and written so far.
    pub closed spec fn count(&self) -> nat {
        self.translated as nat
    }

    /// The rows read so far, in order.
    pub closed spec fn rows(&self) -> Seq<RowView> {
        self.rows@
    }

    /// The rows written so far, in order.
    pub closed spec fn written(&self) -> Seq<RowView> {
        self.written@
    }

    pub closed spec fn stage(&self) -> Stage {
        match self.phase {
            Phase::Ready => Stage::Ready,
            Phase::English(r) => Stage::English(r@),
            Phase::AfterEnglish(r) => Stage::AfterEnglish(r@),
            Phase::German(r) => Stage::German(r@),
            Phase::AfterGerman(r) => Stage::AfterGerman(r@),
            Phase::Done => Stage::Done,
        }
    }

    closed spec fn pending(&self) -> Option<RowView> {
        match self.stage() {
            Stage::English(r) => Some(r),
            Stage::AfterEnglish(r) => Some(r),
            Stage::German(r) => Some(r),
            Stage::AfterGerman(r) => Some(r),
            _ => None,
        }
    }

    pub closed spec fn wf(&self) -> bool {
        &&& self.translated as nat == self.written@.len()
        &&& self.written@.len() <= self.rows@.len()
        &&& forall|i: int| 0 <= i < self.written@.len() ==> #[trigger] carries(self.written@[i], self.rows@[i])
        &&& match self.limit {
            Some(l) => self.translated <= l,
            None => true,
        }
        &&& match self.pending() {
            Some(p) => {
                &&& self.rows@.len() == self.written@.len() + 1
                &&& p.code == self.rows@.last().code
                &&& p.label == self.rows@.last().label
                &&& may_translate(self.count(), self.limit)
                &&& self.translated < u64::MAX
                &&& (self.stage() is AfterEnglish || self.stage() is German || self.stage() is AfterGerman)
                    ==> p.label_en is Some
                &&& self.stage() is AfterGerman ==> p.label_de is Some
            },
            None => self.stage() is Ready ==> self.rows@.len() == self.written@.len(),
        }
        &&& self.stage() is Done ==> (self.rows@.len() == self.written@.len() || (
        self.rows@.len() == self.written@.len() + 1 && !may_translate(self.count(), self.limit)))
    }

    /// Whether the session can take `ev` now: it must be an event the
    /// current stage waits for, and without a limit the count of rows must
    /// still have room to grow.
    pub open spec fn takes(&self, ev: EventView) -> bool {
        &&& expected(self.stage(), ev)
        &&& (ev is Row && self.limit() is None) ==> self.count() < u64::MAX
    }

    /// A run that translates at most `limit` rows; `None` translates all.
    pub fn new(limit: Option<u16>) -> (s: Session)
        ensures
            s.wf(),
            s.limit() == limit,
            s.stage() is Ready,
            s.count() == 0,
            s.rows() == Seq::<RowView>::empty(),
            s.written() == Seq::<RowView>::empty(),
    {
        Session {
            limit,
            translated: 0,
            phase: Phase::Ready,
            rows: Ghost(Seq::empty()),
            written: Ghost(Seq::empty()),
        }
    }

    /// Whether the run is over.
    pub fn is_done(&self) -> (r: bool)
        ensures
            r == (self.stage() is Done),
    {
        match self.phase {
            Phase::Done => true,
            _ => false,
        }
    }

    /// The number of rows translated and written so far.
    pub fn translated(&self) -> (r: u64)
        ensures
            r as nat == self.count(),
    {
        self.translated
    }

    /// Whether `step` can take `event` now.
    pub fn accepts(&self, event: &Event) -> (r: bool)
        ensures
            r == self.takes(event@),
    {
        match (&self.phase, event) {
            (Phase::Ready, Event::Row(_)) => self.limit.is_some() || self.translated < u64::MAX,
            (Phase::Ready, Event::EndOfInput) => true,
            (Phase::English(_), Event::Translated(_)) => true,
            (Phase::AfterEnglish(_), Event::Resumed) => true,
            (Phase::German(_), Event::Translated(_)) => true,
            (Phase::AfterGerman(_), Event::Resumed) => true,
            _ => false,
        }
    }

    /// Takes one event and says what to do next. A row is translated only
    /// while fewer than `limit` rows were; the first row past the limit, or
    /// the end of the input, ends the run. Each row is asked for in English,
    /// then, after a pause, in German, and written after a second pause,
    /// with its code and label unchanged.
    pub fn step(&mut self, event: Event) -> (a: Action)
        requires
            old(self).wf(),
            old(self).takes(event@),
        ensures
            final(self).wf(),
            (final(self).stage(), a@) == next(
                old(self).stage(),
                old(self).count(),
                old(self).limit(),
                event@,
            ),
            final(self).limit() == old(self).limit(),
            final(self).rows() == (match event@ {
                EventView::Row(r) => old(self).rows().push(r),
                _ => old(self).rows(),
            }),
            final(self).written() == (match a@ {
                ActionView::Write(r) => old(self).written().push(r),
                _ => old(self).written(),
            }),
    {
        let ghost old_rows = self.rows@;
        let ghost old_written = self.written@;
        let mut phase = Phase::Done;
        std::mem::swap(&mut self.phase, &mut phase);
        match phase {
            Phase::Ready => match event {
                Event::Row(r) => {
                    self.rows = Ghost(old_rows.push(r@));
                    let under = match self.limit {
                        Some(l) => self.translated < l as u64,
                        None => true,
                    };
                    if under {
                        let text = r.label.clone();
                        self.phase = Phase::English(r);
                        Action::Translate { text, target_lang: owned("EN") }
                    } else {
                        Action::Finish
                    }
                },
                _ => Action::Finish,
            },
            Phase::English(r) => match event {
                Event::Translated(t) => {
                    let mut r = r;
                    r.label_en = Some(t);
                    self.phase = Phase::AfterEnglish(r);
                    Action::Pause { millis: PAUSE_MILLIS }
                },
                _ => Action::Finish,
            },
            Phase::AfterEnglish(r) => {
                let text = r.label.clone();
                self.phase = Phase::German(r);
                Action::Translate { text, target_lang: owned("DE") }
            },
            Phase::German(r) => match event {
                Event::Translated(t) => {
                    let mut r = r;
                    r.label_de = Some(t);
                    self.phase = Phase::AfterGerman(r);
                    Action::Pause { millis: PAUSE_MILLIS }
                },
                _ => Action::Finish,
            },
            Phase::AfterGerman(r) => {
                self.translated = self.translated + 1;
                self.written = Ghost(old_written.push(r@));
                self.phase = Phase::Ready;
                proof {
                    assert forall|i: int| 0 <= i < self.written@.len() implies #[trigger] carries(
                        self.written@[i],
                        self.rows@[i],
                    ) by {
                        if i < old_written.len() {
                            assert(carries(old_written[i], old_rows[i]));
                        }
                    }
                }
                Action::Write(r)
            },
            Phase::Done => Action::Finish,
        }
    }
}

/// Every written row carries the input row at the same position through:
/// the same code and label, with both translations filled in.
pub proof fn lemma_rows_pass_through(s: &Session)
    requires
        s.wf(),
    ensures
        s.written().len() <= s.rows().len(),
        forall|i: int| 0 <= i < s.written().len() ==> carries(#[trigger] s.written()[i], s.rows()[i]),
{
}

/// No more rows are written than the limit allows, and once the run is over
/// the output holds either every input row or exactly `limit` rows: the rows
/// past the limit are not in it.
pub proof fn lemma_within_limit(s: &Session)
    requires
        s.wf(),
    ensures
        s.limit() matches Some(l) ==> s.written().len() <= l,
        s.stage() is Done ==> (s.written().len() == s.rows().len() || s.limit() == Some(
            s.written().len() as u16,
        )),
{
}

/// Rows are written in input order: of two written rows, the earlier one
/// holds the code of the earlier input row.
pub proof fn lemma_order_kept(s: &Session, i: int, j: int)
    requires
        s.wf(),
        0 <= i < j < s.written().len(),
    ensures
        s.written()[i].code == s.rows()[i].code,
        s.written()[j].code == s.rows()[j].code,
        i < j < s.rows().len(),
{
    assert(carries(s.written()[i], s.rows()[i]));
    assert(carries(s.written()[j], s.rows()[j]));
}

} // verus!
