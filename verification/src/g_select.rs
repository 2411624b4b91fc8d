use crate::channel::{Channel, ChannelView};
use vstd::prelude::*;

verus! {

/// One case of a select: receive from a channel, or a timeout (milliseconds).
pub enum Case<T> {
    Recv { channel: Channel<T>, case_id: usize },
    Timeout { duration: u64, case_id: usize },
}

/// The abstract form of a case.
pub enum CaseView<T> {
    Recv { channel: ChannelView<T>, case_id: usize },
    Timeout { duration: u64, case_id: usize },
}

impl<T> View for Case<T> {
    type V = CaseView<T>;

    open spec fn view(&self) -> CaseView<T> {
        match self {
            Case::Recv { channel, case_id } => CaseView::Recv { channel: channel@, case_id: *case_id },
            Case::Timeout { duration, case_id } => CaseView::Timeout { duration: *duration, case_id: *case_id },
        }
    }
}

/// Whether a case can fire now: it receives from a channel that has a buffered value.
pub open spec fn case_ready<T>(c: CaseView<T>) -> bool {
    c matches CaseView::Recv { channel, .. } && channel.buffer.len() > 0
}

/// The case after its channel gave up its oldest value.
pub open spec fn case_after_take<T>(c: CaseView<T>) -> CaseView<T> {
    match c {
        CaseView::Recv { channel, case_id } => CaseView::Recv {
            channel: channel.try_recv_result().0,
            case_id,
        },
        _ => c,
    }
}

/// The result of a select.
#[derive(Debug)]
pub enum SelectOutcome<T> {
    /// Case `case_id` received the value.
    Received(usize, T),
    /// Timeout case `case_id` fired.
    Timeout(usize),
    /// No case was ready and the select has a default.
    Default,
    /// No case was ready and the select blocks: give up the processor and execute it again.
    Pending,
}

/// A select over receive cases of one element type, with optional timeouts and default.
pub struct Select<T> {
    cases: Vec<Case<T>>,
    has_default: bool,
}

impl<T> Select<T> {
    pub closed spec fn spec_cases(&self) -> Seq<CaseView<T>> {
        self.cases@.map_values(|c: Case<T>| c@)
    }

    pub closed spec fn spec_has_default(&self) -> bool {
        self.has_default
    }

    /// Case `i` has id `i` and its channel is in a valid state.
    pub open spec fn wf(&self) -> bool {
        forall|i: int| 0 <= i < self.spec_cases().len() ==> {
            &&& (match #[trigger] self.spec_cases()[i] {
                CaseView::Recv { channel, case_id } => case_id == i && channel.valid(),
                CaseView::Timeout { case_id, .. } => case_id == i,
            })
        }
    }

    /// A select with no case and no default.
    pub fn new() -> (s: Select<T>)
        ensures
            s.wf(),
            s.spec_cases() == Seq::<CaseView<T>>::empty(),
            !s.spec_has_default(),
    {
        let s = Select { cases: Vec::new(), has_default: false };
        assert(s.spec_cases() =~= Seq::<CaseView<T>>::empty());
        s
    }

    /// Adds a case that receives from `channel`; its id is its position.
    pub fn recv(self, channel: Channel<T>) -> (s: Select<T>)
        requires
            self.wf(),
            channel@.valid(),
        ensures
            s.wf(),
            s.spec_cases() == self.spec_cases().push(
                CaseView::Recv { channel: channel@, case_id: self.spec_cases().len() as usize },
            ),
            s.spec_has_default() == self.spec_has_default(),
    {
        let mut s = self;
        let case_id = s.cases.len();
        s.cases.push(Case::Recv { channel, case_id });
        assert(s.spec_cases() =~= self.spec_cases().push(CaseView::Recv { channel: channel@, case_id }));
        s
    }

    /// Adds a case that receives from `channel`, given as the channel itself rather than as
    /// the receiving end of one; its id is its position.
    pub fn recv_channel(self, channel: Channel<T>) -> (s: Select<T>)
        requires
            self.wf(),
            channel@.valid(),
        ensures
            s.wf(),
            s.spec_cases() == self.spec_cases().push(
                CaseView::Recv { channel: channel@, case_id: self.spec_cases().len() as usize },
            ),
            s.spec_has_default() == self.spec_has_default(),
    {
        self.recv(channel)
    }

    /// Adds a timeout case of `duration` milliseconds; its id is its position.
    pub fn timeout(self, duration: u64) -> (s: Select<T>)
        requires
            self.wf(),
        ensures
            s.wf(),
            s.spec_cases() == self.spec_cases().push(
                CaseView::Timeout { duration, case_id: self.spec_cases().len() as usize },
            ),
            s.spec_has_default() == self.spec_has_default(),
    {
        let mut s = self;
        let case_id = s.cases.len();
        s.cases.push(Case::Timeout { duration, case_id });
        assert(s.spec_cases() =~= self.spec_cases().push(CaseView::Timeout { duration, case_id }));
        s
    }

    /// Makes the select non-blocking: with no case ready it takes the default.
    pub fn with_default(self) -> (s: Select<T>)
        requires
            self.wf(),
        ensures
            s.wf(),
            s.spec_cases() == self.spec_cases(),
            s.spec_has_default(),
    {
        let mut s = self;
        s.has_default = true;
        s
    }

    /// One scan of the cases in order: the first receive case whose channel has a buffered value
    /// takes it; timeout cases never fire. With no case ready the result is `none`.
    fn scan(&mut self, none: SelectOutcome<T>) -> (r: SelectOutcome<T>)
        requires
            old(self).wf(),
            none is Default || none is Pending,
        ensures
            final(self).wf(),
            final(self).spec_has_default() == old(self).spec_has_default(),
            final(self).spec_cases().len() == old(self).spec_cases().len(),
            (forall|j: int| 0 <= j < old(self).spec_cases().len() ==> !case_ready(#[trigger] old(self).spec_cases()[j]))
                ==> r == none && final(self).spec_cases() == old(self).spec_cases(),
            r is Received ==> {
                let i = r->Received_0 as int;
                &&& 0 <= i < old(self).spec_cases().len()
                &&& case_ready(old(self).spec_cases()[i])
                &&& forall|j: int| 0 <= j < i ==> !case_ready(#[trigger] old(self).spec_cases()[j])
                &&& r->Received_1 == old(self).spec_cases()[i]->Recv_channel.buffer[0]
                &&& final(self).spec_cases() == old(self).spec_cases().update(i, case_after_take(old(self).spec_cases()[i]))
            },
            !(r is Received) ==> r == none && final(self).spec_cases() == old(self).spec_cases() && forall|j: int|
                0 <= j < old(self).spec_cases().len() ==> !case_ready(#[trigger] old(self).spec_cases()[j]),
    {
        let n = self.cases.len();
        let mut i: usize = 0;
        while i < n
            invariant
                0 <= i <= n,
                n == self.cases@.len(),
                self.cases@ == old(self).cases@,
                self.has_default == old(self).has_default,
                old(self).wf(),
                forall|j: int| 0 <= j < i ==> !case_ready(#[trigger] old(self).spec_cases()[j]),
            decreases n - i,
        {
            let ready = match &self.cases[i] {
                Case::Recv { channel, .. } => channel.has_data(),
                Case::Timeout { .. } => false,
            };
            assert(self.spec_cases()[i as int] == self.cases@[i as int]@);
            if ready {
                let ghost before = self.spec_cases();
                let c = self.cases.remove(i);
                match c {
                    Case::Recv { mut channel, case_id } => {
                        assert(channel@.valid());
                        let got = channel.try_recv();
                        match got {
                            Ok(v) => {
                                self.cases.insert(i, Case::Recv { channel, case_id });
                                assert(self.spec_cases() =~= before.update(i as int, case_after_take(before[i as int])));
                                assert forall|j: int| 0 <= j < self.spec_cases().len() implies (match #[trigger] self.spec_cases()[j] {
                                    CaseView::Recv { channel, case_id } => case_id == j && channel.valid(),
                                    CaseView::Timeout { case_id, .. } => case_id == j,
                                }) by {
                                    if j != i {
                                        assert(self.spec_cases()[j] == before[j]);
                                    }
                                }
                                return SelectOutcome::Received(case_id, v);
                            },
                            Err(_) => {
                                assert(false);
                                self.cases.insert(i, Case::Recv { channel, case_id });
                            },
                        }
                    },
                    Case::Timeout { duration, case_id } => {
                        assert(false);
                        self.cases.insert(i, Case::Timeout { duration, case_id });
                    },
                }
                assert(false);
            }
            i = i + 1;
        }
        assert(self.spec_cases() =~= old(self).spec_cases());
        none
    }

    /// Runs the select once. A select with a default never waits: it takes the first ready
    /// receive case, or the default. Without a default, `Pending` means nothing is ready yet:
    /// the caller gives up the processor and executes it again.
    pub fn execute(&mut self) -> (r: SelectOutcome<T>)
        requires
            old(self).wf(),
        ensures
            final(self).wf(),
            final(self).spec_has_default() == old(self).spec_has_default(),
            (forall|j: int| 0 <= j < old(self).spec_cases().len() ==> !case_ready(#[trigger] old(self).spec_cases()[j]))
                ==> final(self).spec_cases() == old(self).spec_cases() && (if old(self).spec_has_default() {
                r is Default
            } else {
                r is Pending
            }),
            r is Received ==> {
                let i = r->Received_0 as int;
                &&& 0 <= i < old(self).spec_cases().len()
                &&& case_ready(old(self).spec_cases()[i])
                &&& forall|j: int| 0 <= j < i ==> !case_ready(#[trigger] old(self).spec_cases()[j])
                &&& r->Received_1 == old(self).spec_cases()[i]->Recv_channel.buffer[0]
                &&& final(self).spec_cases() == old(self).spec_cases().update(i, case_after_take(old(self).spec_cases()[i]))
            },
            !(r is Received) ==> final(self).spec_cases() == old(self).spec_cases() && (if old(self).spec_has_default() {
                r is Default
            } else {
                r is Pending
            }) && forall|j: int|
                0 <= j < old(self).spec_cases().len() ==> !case_ready(#[trigger] old(self).spec_cases()[j]),
    {
        if self.has_default {
            self.execute_non_blocking()
        } else {
            self.execute_blocking()
        }
    }

    /// Takes the first ready receive case, or the default.
    pub fn execute_non_blocking(&mut self) -> (r: SelectOutcome<T>)
        requires
            old(self).wf(),
        ensures
            final(self).wf(),
            final(self).spec_has_default() == old(self).spec_has_default(),
            r is Received ==> {
                let i = r->Received_0 as int;
                &&& 0 <= i < old(self).spec_cases().len()
                &&& case_ready(old(self).spec_cases()[i])
                &&& forall|j: int| 0 <= j < i ==> !case_ready(#[trigger] old(self).spec_cases()[j])
                &&& r->Received_1 == old(self).spec_cases()[i]->Recv_channel.buffer[0]
                &&& final(self).spec_cases() == old(self).spec_cases().update(i, case_after_take(old(self).spec_cases()[i]))
            },
            !(r is Received) ==> r is Default && final(self).spec_cases() == old(self).spec_cases() && forall|j: int|
                0 <= j < old(self).spec_cases().len() ==> !case_ready(#[trigger] old(self).spec_cases()[j]),
    {
        self.scan(SelectOutcome::Default)
    }

    /// One scan of a blocking select: the first ready receive case, or `Pending`.
    pub fn execute_blocking(&mut self) -> (r: SelectOutcome<T>)
        requires
            old(self).wf(),
        ensures
            final(self).wf(),
            final(self).spec_has_default() == old(self).spec_has_default(),
            r is Received ==> {
                let i = r->Received_0 as int;
                &&& 0 <= i < old(self).spec_cases().len()
                &&& case_ready(old(self).spec_cases()[i])
                &&& forall|j: int| 0 <= j < i ==> !case_ready(#[trigger] old(self).spec_cases()[j])
                &&& r->Received_1 == old(self).spec_cases()[i]->Recv_channel.buffer[0]
                &&& final(self).spec_cases() == old(self).spec_cases().update(i, case_after_take(old(self).spec_cases()[i]))
            },
            !(r is Received) ==> r is Pending && final(self).spec_cases() == old(self).spec_cases() && forall|j: int|
                0 <= j < old(self).spec_cases().len() ==> !case_ready(#[trigger] old(self).spec_cases()[j]),
    {
        self.scan(SelectOutcome::Pending)
    }
}

impl<T> SelectOutcome<T> {
    /// The case id and value of a received outcome.
    pub fn unwrap_received(self) -> (r: (usize, T))
        requires
            self is Received,
        ensures
            r == (self->Received_0, self->Received_1),
    {
        match self {
            SelectOutcome::Received(case_id, value) => (case_id, value),
            _ => vstd::pervasive::unreached(),
        }
    }

    pub fn is_received(&self) -> (b: bool)
        ensures
            b == self is Received,
    {
        match self {
            SelectOutcome::Received(_, _) => true,
            _ => false,
        }
    }

    pub fn is_timeout(&self) -> (b: bool)
        ensures
            b == self is Timeout,
    {
        match self {
            SelectOutcome::Timeout(_) => true,
            _ => false,
        }
    }

    pub fn is_default(&self) -> (b: bool)
        ensures
            b == self is Default,
    {
        match self {
            SelectOutcome::Default => true,
            _ => false,
        }
    }

    /// The received value, if any.
    pub fn get_value(self) -> (v: Option<T>)
        ensures
            self is Received ==> v == Some(self->Received_1),
            !(self is Received) ==> v is None,
    {
        match self {
            SelectOutcome::Received(_, value) => Some(value),
            _ => None,
        }
    }
}

/// A new empty select.
pub fn select_builder<T>() -> (s: Select<T>)
    ensures
        s.wf(),
        s.spec_cases() == Seq::<CaseView<T>>::empty(),
        !s.spec_has_default(),
{
    Select::new()
}

} // verus!
