use vstd::prelude::*;
use crate::config::Config;
use crate::engine::{MatchResult, WorkItem};
use crate::matcher::{line_matches_spec, normalize, normalized};

verus! {

/// Where the dispatcher stands.
pub enum DispatchState {
    /// Reading lines and handing them out.
    Reading,
    /// The work channel is closed; nothing more is sent.
    Finished,
}

/// What the line source or the work channel reports to the dispatcher.
pub enum SourceEvent {
    /// The next line of the source.
    Line(String),
    /// The source has no more lines.
    Exhausted,
    /// A send failed because no worker is left to receive.
    SendFailed,
}

/// What the dispatcher asks its driver to do next.
pub enum DispatchAction {
    /// Send this item into the work channel.
    Send(WorkItem),
    /// Close the work channel: the source is exhausted.
    Close,
    /// Stop reading the source and close the work channel: no worker is left.
    Stop,
}

/// Numbers the lines of the source from 1 and decides when to stop feeding
/// the work channel.
pub struct Dispatcher {
    pub next_line: usize,
    pub state: DispatchState,
}

impl Dispatcher {
    /// Line numbers start at 1.
    pub open spec fn wf(&self) -> bool {
        self.next_line >= 1
    }

    /// A dispatcher that has handed out nothing yet.
    pub fn new() -> (r: Dispatcher)
        ensures
            r.wf(),
            r.next_line == 1,
            r.state is Reading,
    {
        Dispatcher { next_line: 1, state: DispatchState::Reading }
    }

    /// Reacts to one event: a line read while reading is sent with the next
    /// number; exhaustion closes the channel; a failed send stops reading.
    /// Once finished, every event is answered with `Stop`.
    pub fn step(&mut self, event: SourceEvent) -> (r: DispatchAction)
        requires
            old(self).wf(),
            old(self).state is Reading && event is Line ==> old(self).next_line < usize::MAX,
        ensures
            final(self).wf(),
            old(self).state is Finished ==> r is Stop && final(self).state is Finished
                && final(self).next_line == old(self).next_line,
            old(self).state is Reading ==> match event {
                SourceEvent::Line(text) => {
                    &&& r is Send
                    &&& r->Send_0@ == (old(self).next_line as nat, text@)
                    &&& final(self).next_line == old(self).next_line + 1
                    &&& final(self).state is Reading
                },
                SourceEvent::Exhausted => {
                    &&& r is Close
                    &&& final(self).state is Finished
                    &&& final(self).next_line == old(self).next_line
                },
                SourceEvent::SendFailed => {
                    &&& r is Stop
                    &&& final(self).state is Finished
                    &&& final(self).next_line == old(self).next_line
                },
            },
    {
        match self.state {
            DispatchState::Finished => DispatchAction::Stop,
            DispatchState::Reading => match event {
                SourceEvent::Line(text) => {
                    let item = WorkItem { text, line_number: self.next_line };
                    self.next_line = self.next_line + 1;
                    DispatchAction::Send(item)
                },
                SourceEvent::Exhausted => {
                    self.state = DispatchState::Finished;
                    DispatchAction::Close
                },
                SourceEvent::SendFailed => {
                    self.state = DispatchState::Finished;
                    DispatchAction::Stop
                },
            },
        }
    }
}

/// Where a worker stands.
pub enum WorkerState {
    Running,
    Done,
}

/// What the channels report to a worker.
pub enum WorkerEvent {
    /// An item taken from the work channel.
    Received(WorkItem),
    /// The work channel is closed and drained.
    ChannelClosed,
    /// A match could not be reported: no collector is left.
    ResultSendFailed,
}

/// What a worker asks its driver to do next.
pub enum WorkerAction {
    /// Send this match into the result channel.
    Forward(MatchResult),
    /// The item did not match; take the next one.
    Discard,
    /// Leave the loop.
    Exit,
}

/// One worker of the pool: matches the items it receives against the query.
pub struct Worker {
    pub query: String,
    pub normalized_query: String,
    pub ignore_case: bool,
    pub state: WorkerState,
}

impl Worker {
    /// The query is normalized once, under the worker's own policy.
    pub open spec fn wf(&self) -> bool {
        self.normalized_query@ == normalized(self.query@, self.ignore_case)
    }

    /// A running worker for the query and policy of `config`.
    pub fn new(config: &Config) -> (r: Worker)
        requires
            config.wf(),
        ensures
            r.wf(),
            r.query@ == config.query@,
            r.ignore_case == config.ignore_case,
            r.state is Running,
    {
        let normalized_query = if config.ignore_case {
            config.query_lowercased.clone()
        } else {
            config.query.clone()
        };
        Worker {
            query: config.query.clone(),
            normalized_query,
            ignore_case: config.ignore_case,
            state: WorkerState::Running,
        }
    }

    /// Reacts to one event: a received item is forwarded exactly when its line
    /// matches the query; a closed work channel or a failed report ends the
    /// worker. Once done, every event is answered with `Exit`.
    pub fn step(&mut self, event: WorkerEvent) -> (r: WorkerAction)
        requires
            old(self).wf(),
        ensures
            final(self).wf(),
            final(self).query == old(self).query,
            final(self).ignore_case == old(self).ignore_case,
            old(self).state is Done ==> r is Exit && final(self).state is Done,
            old(self).state is Running ==> match event {
                WorkerEvent::Received(item) => {
                    &&& final(self).state is Running
                    &&& if line_matches_spec(item.text@, old(self).query@, old(self).ignore_case) {
                        r is Forward && r->Forward_0@ == item@
                    } else {
                        r is Discard
                    }
                },
                _ => r is Exit && final(self).state is Done,
            },
    {
        match self.state {
            WorkerState::Done => WorkerAction::Exit,
            WorkerState::Running => match event {
                WorkerEvent::Received(item) => {
                    let text = normalize(item.text.as_str(), self.ignore_case);
                    if crate::matcher::matches(text.as_str(), self.normalized_query.as_str()) {
                        WorkerAction::Forward(
                            MatchResult { text: item.text, line_number: item.line_number },
                        )
                    } else {
                        WorkerAction::Discard
                    }
                },
                _ => {
                    self.state = WorkerState::Done;
                    WorkerAction::Exit
                },
            },
        }
    }
}

} // verus!
