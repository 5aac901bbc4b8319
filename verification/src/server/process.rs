//! What the peer is sent of the process of a session.

use crate::proto::message::{
    ChannelRequest, ChannelRequestMessage, ChannelRequestMessageView, ChannelRequestView,
    SshDataType, SSH_EXTENDED_DATA_NONE, SSH_EXTENDED_DATA_STDERR,
};
use crate::proto::request::ExitStatusRequest;
use vstd::prelude::*;

verus! {

/// The outputs of a process. A process on a terminal has the first alone.
#[derive(Clone, Copy, Debug, PartialEq, Eq, Structural)]
pub enum Output {
    Stdout,
    Stderr,
}

impl Output {
    /// The type of the data that carries what is printed on the output.
    pub open spec fn carrier(self) -> SshDataType {
        match self {
            Output::Stdout => SSH_EXTENDED_DATA_NONE,
            Output::Stderr => SSH_EXTENDED_DATA_STDERR,
        }
    }

    pub fn data_type(self) -> (data_type: SshDataType)
        ensures
            data_type == self.carrier(),
    {
        match self {
            Output::Stdout => SSH_EXTENDED_DATA_NONE,
            Output::Stderr => SSH_EXTENDED_DATA_STDERR,
        }
    }
}

/// The status that an exit code is reported as: one where there is no code, and never a negative
/// number.
pub open spec fn status_of(code: Option<i32>) -> u64 {
    match code {
        Some(code) => if code < 0 {
            0
        } else {
            code as u64
        },
        None => 1,
    }
}

/// The status that a process's exit code is reported as.
pub fn exit_status(code: Option<i32>) -> (status: u64)
    ensures
        status == status_of(code),
{
    match code {
        Some(code) => if code < 0 {
            0
        } else {
            code as u64
        },
        None => 1,
    }
}

/// What reports that a process exited with this code, to which no reply is wanted.
pub open spec fn report_of(code: Option<i32>) -> ChannelRequestMessageView {
    ChannelRequestMessageView {
        want_reply: false,
        request: ChannelRequestView::ExitStatus(ExitStatusRequest { exit_status: status_of(code) }),
    }
}

pub fn exit_report(code: Option<i32>) -> (message: ChannelRequestMessage)
    ensures
        message@ == report_of(code),
{
    ChannelRequestMessage {
        want_reply: false,
        request: ChannelRequest::ExitStatus(ExitStatusRequest { exit_status: exit_status(code) }),
    }
}

/// What becomes of a process.
#[derive(Clone, Debug, PartialEq, Eq)]
pub enum ProcessEvent {
    /// It prints.
    Printed(Output, Vec<u8>),
    /// An output comes to its end.
    Ended(Output),
    /// It exits, with a code where it was not killed.
    Exited(Option<i32>),
}

/// The mathematical counterpart of [`ProcessEvent`].
pub enum ProcessEventView {
    Printed(Output, Seq<u8>),
    Ended(Output),
    Exited(Option<i32>),
}

impl View for ProcessEvent {
    type V = ProcessEventView;

    open spec fn view(&self) -> ProcessEventView {
        match *self {
            ProcessEvent::Printed(output, data) => ProcessEventView::Printed(output, data@),
            ProcessEvent::Ended(output) => ProcessEventView::Ended(output),
            ProcessEvent::Exited(code) => ProcessEventView::Exited(code),
        }
    }
}

/// What the peer is sent next.
#[derive(Clone, Debug, PartialEq, Eq)]
pub enum ProcessStep {
    Data { data_type: SshDataType, data: Vec<u8> },
    Report(ChannelRequestMessage),
    Nothing,
}

/// The mathematical counterpart of [`ProcessStep`].
pub enum ProcessStepView {
    Data { data_type: SshDataType, data: Seq<u8> },
    Report(ChannelRequestMessageView),
    Nothing,
}

impl View for ProcessStep {
    type V = ProcessStepView;

    open spec fn view(&self) -> ProcessStepView {
        match *self {
            ProcessStep::Data { data_type, data } => ProcessStepView::Data {
                data_type,
                data: data@,
            },
            ProcessStep::Report(message) => ProcessStepView::Report(message@),
            ProcessStep::Nothing => ProcessStepView::Nothing,
        }
    }
}

/// How far a process has come: which of its outputs are open, and how it exited, where it did.
#[derive(Clone, Copy, Debug, PartialEq, Eq)]
pub struct ProcessRelay {
    pub stdout_open: bool,
    pub stderr_open: bool,
    pub exit: Option<Option<i32>>,
}

impl ProcessRelay {
    /// A process that has just started.
    pub open spec fn started(on_terminal: bool) -> ProcessRelay {
        ProcessRelay { stdout_open: true, stderr_open: !on_terminal, exit: None }
    }

    pub open spec fn open(self, output: Output) -> bool {
        match output {
            Output::Stdout => self.stdout_open,
            Output::Stderr => self.stderr_open,
        }
    }

    /// Whether nothing more comes of the process.
    pub open spec fn over(self) -> bool {
        !self.stdout_open && !self.stderr_open && self.exit is Some
    }

    /// The state after an event.
    pub open spec fn after(self, event: ProcessEventView) -> ProcessRelay {
        match event {
            ProcessEventView::Printed(..) => self,
            ProcessEventView::Ended(Output::Stdout) => ProcessRelay { stdout_open: false, ..self },
            ProcessEventView::Ended(Output::Stderr) => ProcessRelay { stderr_open: false, ..self },
            ProcessEventView::Exited(code) => if self.exit is Some {
                self
            } else {
                ProcessRelay { exit: Some(code), ..self }
            },
        }
    }

    /// What the peer is sent at an event: what an open output prints and, with the event after
    /// which nothing more comes, the report of how the process exited.
    pub open spec fn sent(self, event: ProcessEventView) -> ProcessStepView {
        match event {
            ProcessEventView::Printed(output, data) => if self.open(output) {
                ProcessStepView::Data { data_type: output.carrier(), data }
            } else {
                ProcessStepView::Nothing
            },
            _ => if !self.over() && self.after(event).over() {
                ProcessStepView::Report(report_of(self.after(event).exit->0))
            } else {
                ProcessStepView::Nothing
            },
        }
    }

    /// The state after some events.
    pub open spec fn after_all(self, events: Seq<ProcessEventView>) -> ProcessRelay
        decreases events.len(),
    {
        if events.len() == 0 {
            self
        } else {
            self.after_all(events.drop_last()).after(events.last())
        }
    }

    /// How many reports the peer is sent at some events.
    pub open spec fn reports(self, events: Seq<ProcessEventView>) -> nat
        decreases events.len(),
    {
        if events.len() == 0 {
            0
        } else {
            let before = self.after_all(events.drop_last());
            self.reports(events.drop_last()) + if before.sent(events.last()) is Report {
                1nat
            } else {
                0
            }
        }
    }

    /// The peer is sent exactly one report of how a process exited once the process has exited and
    /// all its outputs have come to their ends, and none before.
    pub proof fn exit_is_reported_once(self, events: Seq<ProcessEventView>)
        requires
            !self.over(),
        ensures
            self.reports(events) == (if self.after_all(events).over() {
                1nat
            } else {
                0
            }),
        decreases events.len(),
    {
        if events.len() > 0 {
            self.exit_is_reported_once(events.drop_last());
        }
    }

    /// Nothing follows the report.
    pub proof fn nothing_follows_the_report(
        self,
        event: ProcessEventView,
        later: ProcessEventView,
    )
        requires
            self.sent(event) is Report,
        ensures
            self.after(event).sent(later) is Nothing,
            self.after(event).after(later) == self.after(event),
    {
    }

    pub fn new(on_terminal: bool) -> (relay: Self)
        ensures
            relay == ProcessRelay::started(on_terminal),
    {
        ProcessRelay { stdout_open: true, stderr_open: !on_terminal, exit: None }
    }

    fn is_over(&self) -> (over: bool)
        ensures
            over == self.over(),
    {
        !self.stdout_open && !self.stderr_open && self.exit.is_some()
    }

    /// What to send the peer at an event.
    pub fn on_event(&mut self, event: ProcessEvent) -> (step: ProcessStep)
        ensures
            *final(self) == old(self).after(event@),
            step@ == old(self).sent(event@),
    {
        let over: bool = self.is_over();
        match event {
            ProcessEvent::Printed(output, data) => {
                let open: bool = match output {
                    Output::Stdout => self.stdout_open,
                    Output::Stderr => self.stderr_open,
                };
                return if open {
                    ProcessStep::Data { data_type: output.data_type(), data }
                } else {
                    ProcessStep::Nothing
                };
            },
            ProcessEvent::Ended(Output::Stdout) => {
                self.stdout_open = false;
            },
            ProcessEvent::Ended(Output::Stderr) => {
                self.stderr_open = false;
            },
            ProcessEvent::Exited(code) => if self.exit.is_none() {
                self.exit = Some(code);
            },
        }
        match self.exit {
            Some(code) => if !over && self.is_over() {
                ProcessStep::Report(exit_report(code))
            } else {
                ProcessStep::Nothing
            },
            None => ProcessStep::Nothing,
        }
    }
}

/// What was printed on an output before its end, by the events alone.
pub open spec fn printed_on(events: Seq<ProcessEventView>, output: Output) -> Seq<u8>
    decreases events.len(),
{
    if events.len() == 0 {
        Seq::empty()
    } else {
        let earlier = events.drop_last();
        match events.last() {
            ProcessEventView::Printed(on, data) if on == output && !earlier.contains(
                ProcessEventView::Ended(output),
            ) => printed_on(earlier, output) + data,
            _ => printed_on(earlier, output),
        }
    }
}

/// The data of one type that the peer is sent at some events, put together.
pub open spec fn data_sent(
    relay: ProcessRelay,
    events: Seq<ProcessEventView>,
    data_type: SshDataType,
) -> Seq<u8>
    decreases events.len(),
{
    if events.len() == 0 {
        Seq::empty()
    } else {
        let earlier = events.drop_last();
        match relay.after_all(earlier).sent(events.last()) {
            ProcessStepView::Data { data_type: sent, data } if sent == data_type => data_sent(
                relay,
                earlier,
                data_type,
            ) + data,
            _ => data_sent(relay, earlier, data_type),
        }
    }
}

/// What is printed on an open output is sent at once, as data of the output's type, whatever has
/// become of the other output and of the process; what is printed on one that ended is not.
pub proof fn open_output_is_sent(relay: ProcessRelay, data: Seq<u8>)
    ensures
        relay.stdout_open ==> relay.sent(ProcessEventView::Printed(Output::Stdout, data)) == (
        ProcessStepView::Data { data_type: 0, data }),
        relay.stderr_open ==> relay.sent(ProcessEventView::Printed(Output::Stderr, data)) == (
        ProcessStepView::Data { data_type: 1, data }),
        !relay.stdout_open ==> relay.sent(ProcessEventView::Printed(Output::Stdout, data))
            is Nothing,
        !relay.stderr_open ==> relay.sent(ProcessEventView::Printed(Output::Stderr, data))
            is Nothing,
{
}

/// The peer is sent, of each type of data, exactly what the process prints on the output of that
/// type before the output ends, in the same order, whatever else happens in between. A process on a
/// terminal has no second output.
pub proof fn printed_data_is_sent(on_terminal: bool, events: Seq<ProcessEventView>)
    ensures
        data_sent(ProcessRelay::started(on_terminal), events, 0) == printed_on(
            events,
            Output::Stdout,
        ),
        !on_terminal ==> data_sent(ProcessRelay::started(on_terminal), events, 1) == printed_on(
            events,
            Output::Stderr,
        ),
        on_terminal ==> data_sent(ProcessRelay::started(on_terminal), events, 1) == Seq::<
            u8,
        >::empty(),
    decreases events.len(),
{
    if events.len() > 0 {
        printed_data_is_sent(on_terminal, events.drop_last());
        lemma_open_until_ended(on_terminal, events.drop_last());
    }
}

/// What has become of a process follows from what happened to it: an output is open until its end,
/// and the process exited as it did first.
pub proof fn state_follows_from_the_events(
    on_terminal: bool,
    events: Seq<ProcessEventView>,
    place: int,
)
    requires
        0 <= place <= events.len(),
        place < events.len() ==> events[place] is Exited,
        forall|i: int| 0 <= i < place ==> !(#[trigger] events[i] is Exited),
    ensures
        ({
            let relay = ProcessRelay::started(on_terminal).after_all(events);
            &&& relay.stdout_open <==> !events.contains(ProcessEventView::Ended(Output::Stdout))
            &&& relay.stderr_open <==> !on_terminal && !events.contains(
                ProcessEventView::Ended(Output::Stderr),
            )
            &&& relay.exit == (if place < events.len() {
                Some(events[place]->Exited_0)
            } else {
                None
            })
        }),
    decreases events.len(),
{
    lemma_open_until_ended(on_terminal, events);
    if events.len() > 0 {
        let earlier = events.drop_last();
        assert forall|i: int| 0 <= i < place && i < earlier.len() implies !(#[trigger] earlier[i]
            is Exited) by {
            assert(earlier[i] == events[i]);
        }
        if place < events.len() - 1 {
            assert(earlier[place] == events[place]);
            state_follows_from_the_events(on_terminal, earlier, place);
        } else {
            state_follows_from_the_events(on_terminal, earlier, earlier.len() as int);
            assert(events.last() == events[events.len() - 1]);
        }
    }
}

proof fn lemma_open_until_ended(on_terminal: bool, events: Seq<ProcessEventView>)
    ensures
        ({
            let relay = ProcessRelay::started(on_terminal).after_all(events);
            &&& relay.stdout_open <==> !events.contains(ProcessEventView::Ended(Output::Stdout))
            &&& relay.stderr_open <==> !on_terminal && !events.contains(
                ProcessEventView::Ended(Output::Stderr),
            )
        }),
    decreases events.len(),
{
    if events.len() > 0 {
        let earlier = events.drop_last();
        lemma_open_until_ended(on_terminal, earlier);
        assert forall|event: ProcessEventView| events.contains(event) <==> earlier.contains(event)
            || event == events.last() by {
            if earlier.contains(event) {
                let i = choose|i: int| 0 <= i < earlier.len() && earlier[i] == event;
                assert(events[i] == event);
            }
            if events.contains(event) && event != events.last() {
                let i = choose|i: int| 0 <= i < events.len() && events[i] == event;
                assert(earlier[i] == event);
            }
            if event == events.last() {
                assert(events[events.len() - 1] == event);
            }
        }
    }
}

/// The exit of a process is reported once it has exited and its outputs have ended, in whatever
/// order, exactly once, and not before.
pub proof fn exit_is_reported_behind_the_outputs(on_terminal: bool, events: Seq<ProcessEventView>)
    ensures
        ProcessRelay::started(on_terminal).reports(events) == (if events.contains(
            ProcessEventView::Ended(Output::Stdout),
        ) && (on_terminal || events.contains(ProcessEventView::Ended(Output::Stderr))) && exists|
            i: int,
        |
            0 <= i < events.len() && #[trigger] events[i] is Exited {
            1nat
        } else {
            0
        }),
{
    ProcessRelay::started(on_terminal).exit_is_reported_once(events);
    let place = lemma_first_exit(events);
    state_follows_from_the_events(on_terminal, events, place);
}

proof fn lemma_first_exit(events: Seq<ProcessEventView>) -> (place: int)
    ensures
        0 <= place <= events.len(),
        place < events.len() ==> events[place] is Exited,
        forall|i: int| 0 <= i < place ==> !(#[trigger] events[i] is Exited),
    decreases events.len(),
{
    if events.len() == 0 {
        0
    } else {
        let earlier = events.drop_last();
        let place = lemma_first_exit(earlier);
        assert forall|i: int| 0 <= i < place implies !(#[trigger] events[i] is Exited) by {
            assert(earlier[i] == events[i]);
        }
        if place < earlier.len() {
            assert(earlier[place] == events[place]);
            place
        } else if events.last() is Exited {
            events.len() - 1
        } else {
            assert(events[events.len() - 1] == events.last());
            events.len() as int
        }
    }
}

/// A report tells the code with which the process exited: no code is told as one, a negative code
/// as none, and any other as it is. No reply to it is wanted.
pub proof fn report_tells_the_exit_code(relay: ProcessRelay, event: ProcessEventView)
    ensures
        relay.sent(event) matches ProcessStepView::Report(report) ==> {
            &&& !report.want_reply
            &&& report.request matches ChannelRequestView::ExitStatus(request)
            &&& relay.after(event).exit matches Some(code)
            &&& code is None ==> request.exit_status == 1
            &&& code matches Some(code) ==> code < 0 ==> request.exit_status == 0
            &&& code matches Some(code) ==> code >= 0 ==> request.exit_status == code
        },
        status_of(None) == 1,
        forall|code: i32| code >= 0 ==> #[trigger] status_of(Some(code)) == code,
        forall|code: i32| code < 0 ==> #[trigger] status_of(Some(code)) == 0,
{
}

} // verus!
