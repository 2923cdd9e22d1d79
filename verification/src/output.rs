//! The output side: the fan-out of finished records to the configured sinks,
//! and the partition of records into the files of the file sink.

use vstd::prelude::*;
use crate::link::Link;
use crate::link::LinkModel;
use crate::link::LinkType;

verus! {

/// A consumer of finished records.
#[derive(Clone, Copy, Debug, PartialEq, Eq, Structural)]
pub enum Sink {
    /// Writes the records to files in the output folder.
    Files,
    /// Writes the records to standard output.
    Console,
}

/// Whether the fan-out still runs.
#[derive(Clone, Copy, Debug, PartialEq, Eq, Structural)]
pub enum Flow {
    /// Records are taken in and sent on.
    Open,
    /// The input ended; every record taken in has been sent on.
    Ended,
    /// A sink was found closed; nothing is sent any more.
    Failed,
}

/// The fan-out of records to sinks.
pub struct FanOut {
    sinks: Vec<Sink>,
    record: Option<Link>,
    cursor: usize,
    flow: Flow,
}

/// What a [`FanOut`] stands for.
pub struct FanModel {
    /// The sinks, in the order in which each record reaches them.
    pub sinks: Seq<Sink>,
    /// The record that is being sent on, if one is.
    pub record: Option<LinkModel>,
    /// The position in `sinks` of the sink that the record is being sent to.
    pub cursor: nat,
    /// Whether the fan-out still runs.
    pub flow: Flow,
}

/// What the caller reports.
#[derive(Debug)]
pub enum FanEvent {
    /// The next record came in.
    Record(Link),
    /// The sink took the record that was sent to it.
    Sent,
    /// The sink that a record was sent to is closed.
    SinkClosed,
    /// No more records will come.
    EndOfInput,
}

/// What a [`FanEvent`] stands for.
pub enum FanEventModel {
    Record(LinkModel),
    Sent,
    SinkClosed,
    EndOfInput,
}

impl View for FanEvent {
    type V = FanEventModel;

    open spec fn view(&self) -> FanEventModel {
        match self {
            FanEvent::Record(link) => FanEventModel::Record(link@),
            FanEvent::Sent => FanEventModel::Sent,
            FanEvent::SinkClosed => FanEventModel::SinkClosed,
            FanEvent::EndOfInput => FanEventModel::EndOfInput,
        }
    }
}

/// What the caller does next.
#[derive(Debug)]
pub enum FanAction {
    /// Send this record to this sink, wait until it is taken, and report
    /// `Sent` or `SinkClosed`.
    Send(Sink, Link),
    /// Wait for the next record and report `Record` or `EndOfInput`.
    Receive,
    /// Close the sinks and wait for them to finish: the run has succeeded.
    Close,
    /// Stop: a sink is closed, and the run ends in an error.
    Abort,
}

/// What a [`FanAction`] stands for.
pub enum FanActionModel {
    Send(Sink, LinkModel),
    Receive,
    Close,
    Abort,
}

impl View for FanAction {
    type V = FanActionModel;

    open spec fn view(&self) -> FanActionModel {
        match self {
            FanAction::Send(sink, link) => FanActionModel::Send(*sink, link@),
            FanAction::Receive => FanActionModel::Receive,
            FanAction::Close => FanActionModel::Close,
            FanAction::Abort => FanActionModel::Abort,
        }
    }
}

/// The sinks that the options configure: the file sink where an output
/// folder is given, then the console where verbose output is asked for.
pub open spec fn configured(folder: bool, verbose: bool) -> Seq<Sink> {
    let files = if folder {
        seq![Sink::Files]
    } else {
        Seq::empty()
    };
    if verbose {
        files.push(Sink::Console)
    } else {
        files
    }
}

/// A fan-out that waits for a record.
pub open spec fn idle(sinks: Seq<Sink>) -> FanModel {
    FanModel { sinks, record: None, cursor: 0, flow: Flow::Open }
}

/// The fan-out after a sink was found closed, or after an event that the
/// state does not wait for.
pub open spec fn failed(fan: FanModel) -> FanModel {
    FanModel { record: None, cursor: 0, flow: Flow::Failed, ..fan }
}

/// The next state and what is asked of the caller, for every state and event.
///
/// A record is sent to each sink in turn, the next one once the one before
/// has taken it. A closed sink ends everything: the record reaches no further
/// sink and no further record is taken in. A fan-out without sinks takes each
/// record in and drops it.
pub open spec fn fan_step(fan: FanModel, event: FanEventModel) -> (FanModel, FanActionModel) {
    match fan.flow {
        Flow::Failed => (fan, FanActionModel::Abort),
        Flow::Ended => (fan, FanActionModel::Close),
        Flow::Open => match (fan.record, event) {
            (None, FanEventModel::Record(link)) => if fan.sinks.len() == 0 {
                (fan, FanActionModel::Receive)
            } else {
                (
                    FanModel { record: Some(link), cursor: 0, ..fan },
                    FanActionModel::Send(fan.sinks[0], link),
                )
            },
            (None, FanEventModel::EndOfInput) => (
                FanModel { flow: Flow::Ended, ..fan },
                FanActionModel::Close,
            ),
            (Some(link), FanEventModel::Sent) => if fan.cursor + 1 < fan.sinks.len() {
                (
                    FanModel { cursor: fan.cursor + 1, ..fan },
                    FanActionModel::Send(fan.sinks[fan.cursor as int + 1], link),
                )
            } else {
                (idle(fan.sinks), FanActionModel::Receive)
            },
            _ => (failed(fan), FanActionModel::Abort),
        },
    }
}

/// Sets up the fan-out for the sinks that the options configure. The caller
/// starts by waiting for the first record.
pub fn handle_output(folder: bool, verbose: bool) -> (fan: FanOut)
    ensures
        fan.wf(),
        fan@ == idle(configured(folder, verbose)),
{
    let mut sinks: Vec<Sink> = Vec::new();
    if folder {
        sinks.push(Sink::Files);
    }
    if verbose {
        sinks.push(Sink::Console);
    }
    proof {
        assert(sinks@ =~= configured(folder, verbose));
    }
    FanOut { sinks, record: None, cursor: 0, flow: Flow::Open }
}

impl FanOut {
    /// The state of the fan-out.
    pub closed spec fn view(&self) -> FanModel {
        FanModel {
            sinks: self.sinks@,
            record: match self.record {
                Some(link) => Some(link@),
                None => None,
            },
            cursor: self.cursor as nat,
            flow: self.flow,
        }
    }

    /// While a record is being sent on, the cursor points at a sink.
    pub open spec fn wf(&self) -> bool {
        self@.record is Some ==> self@.cursor < self@.sinks.len()
    }

    /// Whether the fan-out still runs.
    pub fn flow(&self) -> (flow: Flow)
        ensures
            flow == self@.flow,
    {
        self.flow
    }

    fn fail(&mut self) -> (action: FanAction)
        ensures
            final(self).wf(),
            final(self)@ == failed(old(self)@),
            action@ == FanActionModel::Abort,
    {
        self.record = None;
        self.cursor = 0;
        self.flow = Flow::Failed;
        FanAction::Abort
    }

    /// Takes in what the caller reports and says what to do next.
    pub fn step(&mut self, event: FanEvent) -> (action: FanAction)
        requires
            old(self).wf(),
        ensures
            final(self).wf(),
            (final(self)@, action@) == fan_step(old(self)@, event@),
    {
        match self.flow {
            Flow::Failed => FanAction::Abort,
            Flow::Ended => FanAction::Close,
            Flow::Open => {
                let record = self.record.take();
                match (record, event) {
                    (None, FanEvent::Record(link)) => {
                        if self.sinks.len() == 0 {
                            FanAction::Receive
                        } else {
                            let sink = self.sinks[0];
                            self.cursor = 0;
                            self.record = Some(link.clone());
                            FanAction::Send(sink, link)
                        }
                    },
                    (None, FanEvent::EndOfInput) => {
                        self.flow = Flow::Ended;
                        FanAction::Close
                    },
                    (Some(link), FanEvent::Sent) => {
                        assert(old(self)@.record is Some && self.cursor < self.sinks.len());
                        if self.cursor + 1 < self.sinks.len() {
                            self.cursor = self.cursor + 1;
                            let sink = self.sinks[self.cursor];
                            self.record = Some(link.clone());
                            FanAction::Send(sink, link)
                        } else {
                            self.cursor = 0;
                            FanAction::Receive
                        }
                    },
                    _ => self.fail(),
                }
            },
        }
    }
}

/// What the caller is asked to do over a sequence of events, one action for
/// each event.
pub open spec fn fan_actions(fan: FanModel, events: Seq<FanEventModel>) -> Seq<FanActionModel>
    decreases events.len(),
{
    if events.len() == 0 {
        Seq::empty()
    } else {
        seq![fan_step(fan, events[0]).1] + fan_actions(
            fan_step(fan, events[0]).0,
            events.drop_first(),
        )
    }
}

/// The state after a sequence of events.
pub open spec fn fan_run(fan: FanModel, events: Seq<FanEventModel>) -> FanModel
    decreases events.len(),
{
    if events.len() == 0 {
        fan
    } else {
        fan_run(fan_step(fan, events[0]).0, events.drop_first())
    }
}

/// `count` times the report that a sink took the record.
pub open spec fn all_sent(count: nat) -> Seq<FanEventModel> {
    Seq::new(count, |i: int| FanEventModel::Sent)
}

/// The sends of `link` to the sinks from position `from` on, in order, and
/// then the wait for the next record.
pub open spec fn sends_from(sinks: Seq<Sink>, link: LinkModel, from: int) -> Seq<FanActionModel> {
    Seq::new(
        (sinks.len() - from) as nat,
        |i: int|
            if from + i + 1 < sinks.len() {
                FanActionModel::Send(sinks[from + i + 1], link)
            } else {
                FanActionModel::Receive
            },
    )
}

/// One action answers each event.
pub proof fn lemma_one_action_each(fan: FanModel, events: Seq<FanEventModel>)
    ensures
        fan_actions(fan, events).len() == events.len(),
    decreases events.len(),
{
    if events.len() > 0 {
        lemma_one_action_each(fan_step(fan, events[0]).0, events.drop_first());
    }
}

/// While every sink takes what it is sent, a record that has reached the sink
/// at `cursor` goes on to every later sink, in order, and then the fan-out
/// waits for the next record.
pub proof fn lemma_served_from(fan: FanModel, link: LinkModel)
    requires
        fan.flow == Flow::Open,
        fan.record == Some(link),
        fan.cursor < fan.sinks.len(),
    ensures
        fan_actions(fan, all_sent((fan.sinks.len() - fan.cursor) as nat)) == sends_from(
            fan.sinks,
            link,
            fan.cursor as int,
        ),
        fan_run(fan, all_sent((fan.sinks.len() - fan.cursor) as nat)) == idle(fan.sinks),
    decreases fan.sinks.len() - fan.cursor,
{
    let left = (fan.sinks.len() - fan.cursor) as nat;
    let events = all_sent(left);
    let next = fan_step(fan, events[0]).0;
    let rest = events.drop_first();
    assert(events.len() == left);
    assert(events[0] == FanEventModel::Sent);
    assert(rest =~= all_sent((left - 1) as nat));
    assert(fan_actions(fan, events) == seq![fan_step(fan, events[0]).1] + fan_actions(next, rest));
    assert(fan_run(fan, events) == fan_run(next, rest));
    let wanted = sends_from(fan.sinks, link, fan.cursor as int);
    if fan.cursor + 1 < fan.sinks.len() {
        assert(next == FanModel { cursor: fan.cursor + 1, ..fan });
        lemma_served_from(next, link);
        let tail = sends_from(fan.sinks, link, fan.cursor as int + 1);
        assert(fan_actions(next, rest) == tail);
        assert forall|i: int| 0 <= i < wanted.len() implies (seq![fan_step(fan, events[0]).1]
            + tail)[i] == wanted[i] by {
            if i > 0 {
                assert((seq![fan_step(fan, events[0]).1] + tail)[i] == tail[i - 1]);
            }
        }
        assert(seq![fan_step(fan, events[0]).1] + tail =~= wanted);
    } else {
        assert(next == idle(fan.sinks));
        assert(rest.len() == 0);
        assert(fan_actions(next, rest) =~= Seq::empty());
        assert(seq![fan_step(fan, events[0]).1] + Seq::<FanActionModel>::empty() =~= wanted);
    }
}

/// Every record reaches every sink: while every sink takes what it is sent, a
/// record that comes in is sent to each configured sink, once and in order,
/// before the next record is asked for, and the fan-out is then as it was.
pub proof fn law_every_sink_served(sinks: Seq<Sink>, link: LinkModel)
    requires
        sinks.len() > 0,
    ensures
        fan_actions(idle(sinks), seq![FanEventModel::Record(link)] + all_sent(sinks.len()))
            == Seq::new(
            sinks.len() + 1,
            |i: int|
                if i < sinks.len() {
                    FanActionModel::Send(sinks[i], link)
                } else {
                    FanActionModel::Receive
                },
        ),
        fan_run(idle(sinks), seq![FanEventModel::Record(link)] + all_sent(sinks.len())) == idle(
            sinks,
        ),
{
    let events = seq![FanEventModel::Record(link)] + all_sent(sinks.len());
    let first = fan_step(idle(sinks), events[0]).0;
    assert(events.drop_first() =~= all_sent(sinks.len()));
    lemma_served_from(first, link);
    assert(fan_actions(idle(sinks), events) =~= Seq::new(
        sinks.len() + 1,
        |i: int|
            if i < sinks.len() {
                FanActionModel::Send(sinks[i], link)
            } else {
                FanActionModel::Receive
            },
    ));
}

/// A closed sink is fatal: once the fan-out has failed, every event is
/// answered by `Abort`, so that no record is sent to any sink again, and the
/// fan-out stays failed.
pub proof fn law_failure_is_final(fan: FanModel, events: Seq<FanEventModel>, k: int)
    requires
        fan.flow == Flow::Failed,
        0 <= k < events.len(),
    ensures
        fan_actions(fan, events).len() == events.len(),
        fan_actions(fan, events)[k] == FanActionModel::Abort,
        fan_run(fan, events) == fan,
    decreases events.len(),
{
    let rest = events.drop_first();
    lemma_one_action_each(fan, events);
    assert(fan_step(fan, events[0]) == (fan, FanActionModel::Abort));
    assert(fan_actions(fan, events) == seq![FanActionModel::Abort] + fan_actions(fan, rest));
    assert(fan_run(fan, events) == fan_run(fan, rest));
    if k > 0 {
        law_failure_is_final(fan, rest, k - 1);
        assert(fan_actions(fan, events)[k] == fan_actions(fan, rest)[k - 1]);
    } else if rest.len() > 0 {
        law_failure_is_final(fan, rest, 0);
    }
}

/// The first closed sink ends the delivery: when the sink that a record was
/// sent to is found closed, the fan-out fails, whatever sinks had not yet been
/// sent the record.
pub proof fn law_closed_sink_aborts(fan: FanModel, link: LinkModel)
    requires
        fan.flow == Flow::Open,
        fan.record == Some(link),
    ensures
        fan_step(fan, FanEventModel::SinkClosed) == (failed(fan), FanActionModel::Abort),
        failed(fan).flow == Flow::Failed,
{
}

/// The files of the file sink.
#[derive(Clone, Copy, Debug, PartialEq, Eq, Structural)]
pub enum OutputFile {
    /// Ordinary links that were fetched.
    Crawled,
    /// Ordinary links that were not fetched.
    NotCrawled,
    /// Mail addresses.
    Emails,
    /// Phone numbers.
    PhoneNos,
}

/// The file that a record belongs to: mail addresses and phone numbers each
/// have theirs, ordinary links go by whether they were fetched.
pub open spec fn file_for(link_type: LinkType, crawled: bool) -> OutputFile {
    match link_type {
        LinkType::Mail => OutputFile::Emails,
        LinkType::PhoneNo => OutputFile::PhoneNos,
        LinkType::Other => if crawled {
            OutputFile::Crawled
        } else {
            OutputFile::NotCrawled
        },
    }
}

/// The name of a file inside the output folder.
pub open spec fn name_of(file: OutputFile) -> Seq<char> {
    match file {
        OutputFile::Crawled => "crawled.json"@,
        OutputFile::NotCrawled => "not_crawled.json"@,
        OutputFile::Emails => "emails.json"@,
        OutputFile::PhoneNos => "phone_nos.json"@,
    }
}

/// What every file starts with: `[` and a line feed.
pub open spec fn opening() -> Seq<u8> {
    seq![0x5bu8, 0x0au8]
}

/// What follows every record: `,` and a line feed.
pub open spec fn separator() -> Seq<u8> {
    seq![0x2cu8, 0x0au8]
}

/// What every file ends with: `{}`, a line feed and `]`.
pub open spec fn closing() -> Seq<u8> {
    seq![0x7bu8, 0x7du8, 0x0au8, 0x5du8]
}

/// The bytes that a sequence of records adds to a file: each record's JSON
/// text followed by the separator.
pub open spec fn records_bytes(records: Seq<Seq<u8>>) -> Seq<u8>
    decreases records.len(),
{
    if records.len() == 0 {
        Seq::empty()
    } else {
        records_bytes(records.drop_last()) + records.last() + separator()
    }
}

/// The whole content of a file that was opened, took these records one by
/// one and was closed.
pub open spec fn file_content(records: Seq<Seq<u8>>) -> Seq<u8> {
    opening() + records_bytes(records) + closing()
}

impl OutputFile {
    /// The name of the file inside the output folder.
    pub fn file_name(&self) -> (name: &'static str)
        ensures
            name@ == name_of(*self),
    {
        match self {
            OutputFile::Crawled => "crawled.json",
            OutputFile::NotCrawled => "not_crawled.json",
            OutputFile::Emails => "emails.json",
            OutputFile::PhoneNos => "phone_nos.json",
        }
    }
}

/// The bytes that open a file.
pub fn init_writer() -> (bytes: Vec<u8>)
    ensures
        bytes@ == opening(),
{
    let mut bytes: Vec<u8> = Vec::new();
    bytes.push(0x5bu8);
    bytes.push(0x0au8);
    proof {
        assert(bytes@ =~= opening());
    }
    bytes
}

/// The bytes that one record adds to a file: its JSON text and the separator.
pub fn write_json(json: &Vec<u8>) -> (bytes: Vec<u8>)
    ensures
        bytes@ == json@ + separator(),
{
    let mut bytes: Vec<u8> = json.clone();
    bytes.push(0x2cu8);
    bytes.push(0x0au8);
    proof {
        assert(bytes@ =~= json@ + separator());
    }
    bytes
}

/// The bytes that close a file.
pub fn clean_writer() -> (bytes: Vec<u8>)
    ensures
        bytes@ == closing(),
{
    let mut bytes: Vec<u8> = Vec::new();
    bytes.push(0x7bu8);
    bytes.push(0x7du8);
    bytes.push(0x0au8);
    bytes.push(0x5du8);
    proof {
        assert(bytes@ =~= closing());
    }
    bytes
}

/// What the file sink writes for one record, and where.
#[derive(Debug)]
pub struct Written {
    pub file: OutputFile,
    pub bytes: Vec<u8>,
}

/// Places one record: the file that the link belongs to, and the bytes that
/// its JSON text adds to that file.
pub fn write_links(link: &Link, json: &Vec<u8>) -> (written: Written)
    ensures
        written.file == file_for(link@.link_type, link@.crawled),
        written.bytes@ == json@ + separator(),
{
    let file = match link.link_type {
        LinkType::Mail => OutputFile::Emails,
        LinkType::PhoneNo => OutputFile::PhoneNos,
        LinkType::Other => {
            if link.crawled {
                OutputFile::Crawled
            } else {
                OutputFile::NotCrawled
            }
        },
    };
    Written { file, bytes: write_json(json) }
}

/// Every file is a JSON array: the opening bracket, each record followed by
/// a comma, and an empty object before the closing bracket. A file without
/// records holds the empty object alone, and every further record goes
/// between the records before it and the empty object.
pub proof fn law_file_is_framed(records: Seq<Seq<u8>>, json: Seq<u8>)
    ensures
        file_content(Seq::empty()) == opening() + closing(),
        file_content(records.push(json)) == opening() + records_bytes(records) + json
            + separator() + closing(),
{
    assert(opening() + Seq::<u8>::empty() + closing() =~= opening() + closing());
    assert(records.push(json).drop_last() =~= records);
    assert(opening() + (records_bytes(records) + json + separator()) + closing() =~= opening()
        + records_bytes(records) + json + separator() + closing());
}

} // verus!
