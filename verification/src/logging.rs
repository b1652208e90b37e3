//! Message routing of the channel-based logger.
//!
//! A [`LoggerHandle`] queues messages; the [`Logger`] drains the queue and
//! decides, for every message, which sinks it goes to: the terminal output
//! and the named file sinks that were registered with it. The writes
//! themselves are done by the caller, one per returned [`Delivery`].
use vstd::prelude::*;
use crate::paths::{join_path, spec_join};
use crate::text::{copy_strings, texts};

verus! {

/// Where a message is written.
#[derive(Debug, Clone, PartialEq, Eq)]
pub enum Sink {
    /// The terminal logger.
    Output,
    /// The file logger registered under this name.
    File(String),
}

/// One write of a message to a sink.
#[derive(Debug, Clone, PartialEq, Eq)]
pub struct Delivery {
    pub sink: Sink,
    pub msg: String,
}

/// A [`Sink`] as a mathematical value.
pub enum SinkView {
    Output,
    File(Seq<char>),
}

impl View for Sink {
    type V = SinkView;

    open spec fn view(&self) -> SinkView {
        match self {
            Sink::Output => SinkView::Output,
            Sink::File(name) => SinkView::File(name@),
        }
    }
}

impl View for Delivery {
    type V = (SinkView, Seq<char>);

    open spec fn view(&self) -> (SinkView, Seq<char>) {
        (self.sink@, self.msg@)
    }
}

/// Each delivery of a sequence as a value.
pub open spec fn delivery_views(v: Seq<Delivery>) -> Seq<(SinkView, Seq<char>)> {
    v.map_values(|d: Delivery| d@)
}

/// Each queued batch of file messages as a value.
pub open spec fn batch_views(v: Seq<(Vec<String>, String)>) -> Seq<(Seq<Seq<char>>, Seq<char>)> {
    v.map_values(|b: (Vec<String>, String)| (texts(b.0@), b.1@))
}

/// The name of the aggregate file sink.
pub open spec fn all_name() -> Seq<char> {
    seq!['A', 'l', 'l']
}

/// The file that the aggregate sink writes to.
pub open spec fn all_file_name() -> Seq<char> {
    seq!['A', 'l', 'l', '.', 't', 'x', 't']
}

/// The aggregate sink is named `All`, and its file is `All.txt`.
pub proof fn lemma_aggregate_names()
    ensures
        all_name() == "All"@,
        all_file_name() == "All.txt"@,
{
    reveal_strlit("All");
    reveal_strlit("All.txt");
    assert(all_name() =~= "All"@);
    assert(all_file_name() =~= "All.txt"@);
}

/// The writes of one info message: the terminal, and the aggregate file
/// when aggregation is on.
pub open spec fn info_targets(aggregate: bool, msg: Seq<char>) -> Seq<(SinkView, Seq<char>)> {
    if aggregate {
        seq![(SinkView::Output, msg), (SinkView::File(all_name()), msg)]
    } else {
        seq![(SinkView::Output, msg)]
    }
}

/// The writes of a queue of info messages, message after message.
pub open spec fn info_all(aggregate: bool, msgs: Seq<Seq<char>>) -> Seq<(SinkView, Seq<char>)>
    decreases msgs.len(),
{
    if msgs.len() == 0 {
        seq![]
    } else {
        info_all(aggregate, msgs.drop_last()) + info_targets(aggregate, msgs.last())
    }
}

/// The writes of one message to each of the named file sinks, in order.
pub open spec fn file_targets(files: Seq<Seq<char>>, msg: Seq<char>) -> Seq<(SinkView, Seq<char>)> {
    files.map_values(|f: Seq<char>| (SinkView::File(f), msg))
}

/// The writes of a queue of file messages, batch after batch.
pub open spec fn files_all(batches: Seq<(Seq<Seq<char>>, Seq<char>)>) -> Seq<(SinkView, Seq<char>)>
    decreases batches.len(),
{
    if batches.len() == 0 {
        seq![]
    } else {
        files_all(batches.drop_last()) + file_targets(batches.last().0, batches.last().1)
    }
}

/// Every file named in every batch is one of `registry`.
pub open spec fn batches_registered(
    batches: Seq<(Seq<Seq<char>>, Seq<char>)>,
    registry: Seq<Seq<char>>,
) -> bool {
    forall|i: int, j: int|
        0 <= i < batches.len() && 0 <= j < batches[i].0.len() ==> #[trigger] registry.contains(
            batches[i].0[j],
        )
}

/// Delivering a queue in two polls writes what one poll of the whole queue
/// writes: the info writes of `a + b` are those of `a`, then those of `b`.
pub proof fn lemma_info_all_append(aggregate: bool, a: Seq<Seq<char>>, b: Seq<Seq<char>>)
    ensures
        info_all(aggregate, a + b) == info_all(aggregate, a) + info_all(aggregate, b),
    decreases b.len(),
{
    if b.len() == 0 {
        assert(a + b =~= a);
        assert(info_all(aggregate, a) + info_all(aggregate, b) =~= info_all(aggregate, a));
    } else {
        lemma_info_all_append(aggregate, a, b.drop_last());
        assert((a + b).drop_last() =~= a + b.drop_last());
        assert((a + b).last() == b.last());
        assert(info_all(aggregate, a + b) =~= info_all(aggregate, a) + info_all(aggregate, b));
    }
}

/// Delivering a queue of file batches in two polls writes what one poll of
/// the whole queue writes.
pub proof fn lemma_files_all_append(
    a: Seq<(Seq<Seq<char>>, Seq<char>)>,
    b: Seq<(Seq<Seq<char>>, Seq<char>)>,
)
    ensures
        files_all(a + b) == files_all(a) + files_all(b),
    decreases b.len(),
{
    if b.len() == 0 {
        assert(a + b =~= a);
        assert(files_all(a) + files_all(b) =~= files_all(a));
    } else {
        lemma_files_all_append(a, b.drop_last());
        assert((a + b).drop_last() =~= a + b.drop_last());
        assert((a + b).last() == b.last());
        assert(files_all(a + b) =~= files_all(a) + files_all(b));
    }
}

/// The number of writes a queue of file batches makes: one per file named.
pub open spec fn total_files(batches: Seq<(Seq<Seq<char>>, Seq<char>)>) -> nat
    decreases batches.len(),
{
    if batches.len() == 0 {
        0
    } else {
        total_files(batches.drop_last()) + batches.last().0.len()
    }
}

/// Draining a queue of info messages m0..m(n-1) writes, for each message in
/// order and whatever its text, `(Output, mk)` and, when aggregation is on,
/// `(File("All"), mk)` right after it: `2n` writes with aggregation, `n`
/// without.
pub proof fn lemma_info_all_writes(aggregate: bool, msgs: Seq<Seq<char>>)
    ensures
        aggregate ==> info_all(aggregate, msgs).len() == 2 * msgs.len(),
        !aggregate ==> info_all(aggregate, msgs).len() == msgs.len(),
        forall|k: int|
            0 <= k < msgs.len() && aggregate ==> info_all(aggregate, msgs)[2 * k] == (
                SinkView::Output,
                msgs[k],
            ) && info_all(aggregate, msgs)[2 * k + 1] == (
                SinkView::File(seq!['A', 'l', 'l']),
                msgs[k],
            ),
        forall|k: int|
            0 <= k < msgs.len() && !aggregate ==> info_all(aggregate, msgs)[k] == (
                SinkView::Output,
                msgs[k],
            ),
    decreases msgs.len(),
{
    if msgs.len() > 0 {
        let front = msgs.drop_last();
        lemma_info_all_writes(aggregate, front);
        let all = info_all(aggregate, msgs);
        let pre = info_all(aggregate, front);
        assert(all == pre + info_targets(aggregate, msgs.last()));
        assert forall|k: int| 0 <= k < msgs.len() && aggregate implies all[2 * k] == (
            SinkView::Output,
            msgs[k],
        ) && all[2 * k + 1] == (SinkView::File(seq!['A', 'l', 'l']), msgs[k]) by {
            if k < front.len() {
                assert(front[k] == msgs[k]);
                assert(all[2 * k] == pre[2 * k]);
                assert(all[2 * k + 1] == pre[2 * k + 1]);
            } else {
                assert(seq!['A', 'l', 'l'] =~= all_name());
            }
        }
        assert forall|k: int| 0 <= k < msgs.len() && !aggregate implies all[k] == (
            SinkView::Output,
            msgs[k],
        ) by {
            if k < front.len() {
                assert(front[k] == msgs[k]);
                assert(all[k] == pre[k]);
            }
        }
    }
}

/// Every queued info message is written to the terminal, and, when
/// aggregation is on, to the aggregate file `All`, whatever its text.
pub proof fn lemma_info_all_contains(aggregate: bool, msgs: Seq<Seq<char>>, k: int)
    requires
        0 <= k < msgs.len(),
    ensures
        info_all(aggregate, msgs).contains((SinkView::Output, msgs[k])),
        aggregate ==> info_all(aggregate, msgs).contains(
            (SinkView::File(seq!['A', 'l', 'l']), msgs[k]),
        ),
{
    lemma_info_all_writes(aggregate, msgs);
    if aggregate {
        assert(info_all(aggregate, msgs)[2 * k] == (SinkView::Output, msgs[k]));
        assert(info_all(aggregate, msgs)[2 * k + 1] == (SinkView::File(seq!['A', 'l', 'l']), msgs[k]));
    } else {
        assert(info_all(aggregate, msgs)[k] == (SinkView::Output, msgs[k]));
    }
}

/// Draining one more batch `(files, msg)` appends exactly one write
/// `(File(f), msg)` for each name `f` of `files`, in order, whatever the
/// message; an empty queue writes nothing.
pub proof fn lemma_files_all_writes(
    batches: Seq<(Seq<Seq<char>>, Seq<char>)>,
    files: Seq<Seq<char>>,
    msg: Seq<char>,
)
    ensures
        files_all(Seq::<(Seq<Seq<char>>, Seq<char>)>::empty()) == Seq::<
            (SinkView, Seq<char>),
        >::empty(),
        files_all(batches.push((files, msg))) == files_all(batches) + Seq::new(
            files.len(),
            |k: int| (SinkView::File(files[k]), msg),
        ),
        files_all(batches).len() == total_files(batches),
    decreases batches.len(),
{
    let b = batches.push((files, msg));
    assert(b.drop_last() =~= batches);
    assert(file_targets(files, msg) =~= Seq::new(
        files.len(),
        |k: int| (SinkView::File(files[k]), msg),
    ));
    if batches.len() > 0 {
        lemma_files_all_writes(batches.drop_last(), batches.last().0, batches.last().1);
        assert(batches.drop_last().push(batches.last()) =~= batches);
    }
}

/// Every file named in every queued batch gets that batch's message,
/// whatever its text.
pub proof fn lemma_files_all_contains(
    batches: Seq<(Seq<Seq<char>>, Seq<char>)>,
    i: int,
    j: int,
)
    requires
        0 <= i < batches.len(),
        0 <= j < batches[i].0.len(),
    ensures
        files_all(batches).contains((SinkView::File(batches[i].0[j]), batches[i].1)),
    decreases batches.len(),
{
    let front = batches.drop_last();
    let last = batches.last();
    lemma_files_all_writes(front, last.0, last.1);
    assert(front.push(last) =~= batches);
    let all = files_all(batches);
    if i < front.len() {
        lemma_files_all_contains(front, i, j);
        assert(front[i] == batches[i]);
        let w = (SinkView::File(batches[i].0[j]), batches[i].1);
        let idx = choose|idx: int| 0 <= idx < files_all(front).len() && files_all(front)[idx] == w;
        assert(all[idx] == w);
    } else {
        assert(all[files_all(front).len() + j] == (SinkView::File(batches[i].0[j]), batches[i].1));
    }
}

/// Every message written by a poll comes from the queue, and every write
/// of a queue of info messages goes to the terminal or the aggregate file.
pub proof fn lemma_info_all_sinks(aggregate: bool, msgs: Seq<Seq<char>>, k: int)
    requires
        0 <= k < info_all(aggregate, msgs).len(),
    ensures
        msgs.contains(info_all(aggregate, msgs)[k].1),
        info_all(aggregate, msgs)[k].0 == SinkView::Output || (aggregate
            && info_all(aggregate, msgs)[k].0 == SinkView::File(all_name())),
    decreases msgs.len(),
{
    if msgs.len() > 0 {
        let front = info_all(aggregate, msgs.drop_last());
        if k < front.len() {
            lemma_info_all_sinks(aggregate, msgs.drop_last(), k);
            let w = front[k].1;
            let idx = choose|idx: int| 0 <= idx < msgs.drop_last().len() && msgs.drop_last()[idx] == w;
            assert(msgs[idx] == w);
        } else {
            assert(msgs[msgs.len() - 1] == msgs.last());
        }
    }
}

/// The sending end of the logger's queues.
pub struct LoggerHandle {
    sender: Vec<String>,
    fsender: Vec<(Vec<String>, String)>,
    sent: Ghost<Seq<Seq<char>>>,
    received: Ghost<Seq<Seq<char>>>,
    fsent: Ghost<Seq<(Seq<Seq<char>>, Seq<char>)>>,
    freceived: Ghost<Seq<(Seq<Seq<char>>, Seq<char>)>>,
}

impl LoggerHandle {
    /// The info messages queued and not yet delivered, oldest first.
    pub closed spec fn pending(&self) -> Seq<Seq<char>> {
        texts(self.sender@)
    }

    /// The file messages queued and not yet delivered, oldest first: the
    /// names of the file sinks and the message.
    pub closed spec fn fpending(&self) -> Seq<(Seq<Seq<char>>, Seq<char>)> {
        batch_views(self.fsender@)
    }

    /// Every info message ever queued through this handle, oldest first.
    pub closed spec fn sent(&self) -> Seq<Seq<char>> {
        self.sent@
    }

    /// Every info message a logger has taken from this handle, oldest first.
    pub closed spec fn received(&self) -> Seq<Seq<char>> {
        self.received@
    }

    /// Every file message ever queued through this handle, oldest first.
    pub closed spec fn fsent(&self) -> Seq<(Seq<Seq<char>>, Seq<char>)> {
        self.fsent@
    }

    /// Every file message a logger has taken from this handle, oldest first.
    pub closed spec fn freceived(&self) -> Seq<(Seq<Seq<char>>, Seq<char>)> {
        self.freceived@
    }

    /// What was sent is what was received followed by what is still queued,
    /// for both queues.
    pub open spec fn wf(&self) -> bool {
        &&& self.sent() == self.received() + self.pending()
        &&& self.fsent() == self.freceived() + self.fpending()
    }

    /// Queues an info message.
    pub fn log_info(&mut self, msg: String)
        ensures
            final(self).pending() == old(self).pending().push(msg@),
            final(self).fpending() == old(self).fpending(),
            final(self).sent() == old(self).sent().push(msg@),
            final(self).received() == old(self).received(),
            final(self).fsent() == old(self).fsent(),
            final(self).freceived() == old(self).freceived(),
            old(self).wf() ==> final(self).wf(),
    {
        let ghost m = msg@;
        self.sent = Ghost(self.sent@.push(m));
        self.sender.push(msg);
        proof {
            assert(texts(self.sender@) =~= texts(old(self).sender@).push(m));
            if old(self).wf() {
                assert(self.sent() =~= self.received() + self.pending());
            }
        }
    }

    /// Queues a message for the file sinks named in `files`.
    pub fn send_context(&mut self, files: Vec<String>, msg: String)
        ensures
            final(self).fpending() == old(self).fpending().push((texts(files@), msg@)),
            final(self).pending() == old(self).pending(),
            final(self).fsent() == old(self).fsent().push((texts(files@), msg@)),
            final(self).freceived() == old(self).freceived(),
            final(self).sent() == old(self).sent(),
            final(self).received() == old(self).received(),
            old(self).wf() ==> final(self).wf(),
    {
        let ghost entry = (texts(files@), msg@);
        self.fsent = Ghost(self.fsent@.push(entry));
        self.fsender.push((files, msg));
        proof {
            assert(batch_views(self.fsender@) =~= batch_views(old(self).fsender@).push(entry));
            if old(self).wf() {
                assert(self.fsent() =~= self.freceived() + self.fpending());
            }
        }
    }
}

/// The messages a logger has taken from a handle are those sent through it,
/// in the order sent: they are a prefix of what was sent, each taken once,
/// and the rest is still queued.
pub proof fn lemma_received_were_sent(h: LoggerHandle)
    requires
        h.wf(),
    ensures
        h.received().len() <= h.sent().len(),
        h.received() == h.sent().take(h.received().len() as int),
        h.pending() == h.sent().skip(h.received().len() as int),
        h.freceived().len() <= h.fsent().len(),
        h.freceived() == h.fsent().take(h.freceived().len() as int),
        h.fpending() == h.fsent().skip(h.freceived().len() as int),
{
    assert(h.received() =~= h.sent().take(h.received().len() as int));
    assert(h.pending() =~= h.sent().skip(h.received().len() as int));
    assert(h.freceived() =~= h.fsent().take(h.freceived().len() as int));
    assert(h.fpending() =~= h.fsent().skip(h.freceived().len() as int));
}

/// The receiving end: the registry of file sinks and the aggregation switch.
pub struct Logger {
    files: Vec<String>,
    aggregate_log: bool,
}

/// Writes of a message to the terminal, and to the aggregate file when asked.
fn info_deliveries(out: &mut Vec<Delivery>, aggregate: bool, msg: &String)
    ensures
        delivery_views(final(out)@) == delivery_views(old(out)@) + info_targets(aggregate, msg@),
{
    out.push(Delivery { sink: Sink::Output, msg: msg.clone() });
    if aggregate {
        let name = String::from_str("All");
        proof {
            reveal_strlit("All");
            assert(name@ =~= all_name());
        }
        out.push(Delivery { sink: Sink::File(name), msg: msg.clone() });
    }
    proof {
        assert(delivery_views(out@) =~= delivery_views(old(out)@) + info_targets(aggregate, msg@));
    }
}

/// Whether `name` is one of `files`.
fn names_contain(files: &Vec<String>, name: &String) -> (found: bool)
    ensures
        found == texts(files@).contains(name@),
{
    let mut i: usize = 0;
    while i < files.len()
        invariant
            0 <= i <= files@.len(),
            forall|j: int| 0 <= j < i ==> texts(files@)[j] != name@,
        decreases files@.len() - i,
    {
        if files[i] == *name {
            proof {
                assert(texts(files@)[i as int] == name@);
            }
            return true;
        }
        i = i + 1;
    }
    proof {
        if texts(files@).contains(name@) {
            let k = choose|k: int| 0 <= k < texts(files@).len() && texts(files@)[k] == name@;
            assert(texts(files@)[k] == name@);
        }
    }
    false
}


impl Logger {
    /// The names of the registered file sinks, in the order of registration.
    pub closed spec fn registry(&self) -> Seq<Seq<char>> {
        texts(self.files@)
    }

    /// Whether info messages also go to the aggregate file.
    pub closed spec fn aggregates(&self) -> bool {
        self.aggregate_log
    }

    /// No name is registered twice, and aggregation is on only when the
    /// aggregate file sink is registered.
    pub open spec fn wf(&self) -> bool {
        &&& self.registry().no_duplicates()
        &&& self.aggregates() ==> self.registry().contains(all_name())
    }

    /// Every logger is well formed.
    #[verifier::type_invariant]
    spec fn inv(&self) -> bool {
        self.wf()
    }

    /// A logger with no file sinks and aggregation off, with the handle
    /// that feeds it; both queues are empty.
    pub fn new() -> (r: (LoggerHandle, Logger))
        ensures
            r.0.pending() == Seq::<Seq<char>>::empty(),
            r.0.fpending() == Seq::<(Seq<Seq<char>>, Seq<char>)>::empty(),
            r.0.sent() == Seq::<Seq<char>>::empty(),
            r.0.received() == Seq::<Seq<char>>::empty(),
            r.0.fsent() == Seq::<(Seq<Seq<char>>, Seq<char>)>::empty(),
            r.0.freceived() == Seq::<(Seq<Seq<char>>, Seq<char>)>::empty(),
            r.0.wf(),
            r.1.registry() == Seq::<Seq<char>>::empty(),
            !r.1.aggregates(),
            r.1.wf(),
    {
        let handle = LoggerHandle {
            sender: Vec::new(),
            fsender: Vec::new(),
            sent: Ghost(Seq::empty()),
            received: Ghost(Seq::empty()),
            fsent: Ghost(Seq::empty()),
            freceived: Ghost(Seq::empty()),
        };
        let logger = Logger { files: Vec::new(), aggregate_log: false };
        proof {
            assert(handle.pending() =~= Seq::<Seq<char>>::empty());
            assert(handle.fpending() =~= Seq::<(Seq<Seq<char>>, Seq<char>)>::empty());
            assert(handle.sent() =~= handle.received() + handle.pending());
            assert(handle.fsent() =~= handle.freceived() + handle.fpending());
            assert(logger.registry() =~= Seq::<Seq<char>>::empty());
        }
        (handle, logger)
    }

    /// Turns aggregation on. When no aggregate sink is registered yet, it is
    /// registered and the path of the file to open for it, `All.txt` in
    /// `dir`, is returned; otherwise nothing changes but the switch.
    pub fn all_log(&mut self, dir: String) -> (opened: Option<String>)
        ensures
            final(self).aggregates(),
            old(self).registry().contains(all_name()) ==> opened is None && final(self).registry()
                == old(self).registry(),
            !old(self).registry().contains(all_name()) ==> (opened matches Some(p) && p@
                == spec_join(dir@, all_file_name()) && final(self).registry() == old(self).registry().push(all_name())),
    {
        proof {
            use_type_invariant(&*self);
        }
        let mut tmp = Logger { files: Vec::new(), aggregate_log: false };
        std::mem::swap(self, &mut tmp);
        let Logger { mut files, aggregate_log: _ } = tmp;
        let ghost old_reg = texts(files@);
        let name = String::from_str("All");
        proof {
            reveal_strlit("All");
            assert(name@ =~= all_name());
        }
        let opened = if names_contain(&files, &name) {
            None
        } else {
            let file = "All.txt";
            proof {
                reveal_strlit("All.txt");
                assert(file@ =~= all_file_name());
            }
            let path = join_path(dir.as_str(), file);
            files.push(name);
            proof {
                assert(texts(files@) =~= old_reg.push(all_name()));
            }
            Some(path)
        };
        proof {
            assert(texts(files@).contains(all_name())) by {
                if !old_reg.contains(all_name()) {
                    assert(texts(files@)[texts(files@).len() - 1] == all_name());
                }
            }
        }
        *self = Logger { files, aggregate_log: true };
        opened
    }

    /// Registers a file sink under `name`, unless one is registered already.
    fn context(&mut self, name: String)
        ensures
            final(self).aggregates() == old(self).aggregates(),
            old(self).registry().contains(name@) ==> final(self).registry() == old(self).registry(),
            !old(self).registry().contains(name@) ==> final(self).registry() == old(self).registry().push(name@),
    {
        proof {
            use_type_invariant(&*self);
        }
        let mut tmp = Logger { files: Vec::new(), aggregate_log: false };
        std::mem::swap(self, &mut tmp);
        let Logger { mut files, aggregate_log } = tmp;
        let ghost old_reg = texts(files@);
        if !names_contain(&files, &name) {
            let ghost n = name@;
            files.push(name);
            proof {
                assert(texts(files@) =~= old_reg.push(n));
                if aggregate_log {
                    let k = choose|k: int| 0 <= k < old_reg.len() && old_reg[k] == all_name();
                    assert(texts(files@)[k] == all_name());
                }
            }
        }
        *self = Logger { files, aggregate_log };
    }

    /// The writes of one info message.
    fn log_info(&self, out: &mut Vec<Delivery>, msg: &String)
        ensures
            delivery_views(final(out)@) == delivery_views(old(out)@) + info_targets(
                self.aggregates(),
                msg@,
            ),
    {
        info_deliveries(out, self.aggregate_log, msg);
    }

    /// The write of one message to the file sink registered under `file`.
    fn log_info_file(&self, out: &mut Vec<Delivery>, file: &String, msg: &String)
        requires
            self.registry().contains(file@),
        ensures
            delivery_views(final(out)@) == delivery_views(old(out)@).push(
                (SinkView::File(file@), msg@),
            ),
    {
        out.push(Delivery { sink: Sink::File(file.clone()), msg: msg.clone() });
        proof {
            assert(delivery_views(out@) =~= delivery_views(old(out)@).push(
                (SinkView::File(file@), msg@),
            ));
        }
    }

    /// Drains the handle's info queue: every queued message, oldest first,
    /// goes to the terminal, and to the aggregate file when aggregation is on.
    pub fn poll_once(&self, handle: &mut LoggerHandle) -> (out: Vec<Delivery>)
        ensures
            delivery_views(out@) == info_all(self.aggregates(), old(handle).pending()),
            forall|k: int|
                0 <= k < old(handle).pending().len() ==> delivery_views(out@).contains(
                    (SinkView::Output, #[trigger] old(handle).pending()[k]),
                ),
            forall|k: int|
                0 <= k < old(handle).pending().len() && self.aggregates() ==> delivery_views(
                    out@,
                ).contains((SinkView::File(seq!['A', 'l', 'l']), #[trigger] old(handle).pending()[k])),
            self.aggregates() ==> out@.len() == 2 * old(handle).pending().len(),
            !self.aggregates() ==> out@.len() == old(handle).pending().len(),
            final(handle).pending() == Seq::<Seq<char>>::empty(),
            final(handle).fpending() == old(handle).fpending(),
            final(handle).received() == old(handle).received() + old(handle).pending(),
            final(handle).sent() == old(handle).sent(),
            final(handle).fsent() == old(handle).fsent(),
            final(handle).freceived() == old(handle).freceived(),
            old(handle).wf() ==> final(handle).wf(),
    {
        let mut msgs: Vec<String> = Vec::new();
        std::mem::swap(&mut msgs, &mut handle.sender);
        let ghost queued = texts(msgs@);
        handle.received = Ghost(handle.received@ + queued);
        let mut out: Vec<Delivery> = Vec::new();
        let mut i: usize = 0;
        while i < msgs.len()
            invariant
                0 <= i <= msgs@.len(),
                queued == texts(msgs@),
                delivery_views(out@) == info_all(self.aggregates(), queued.take(i as int)),
            decreases msgs@.len() - i,
        {
            proof {
                assert(queued.take(i + 1).drop_last() =~= queued.take(i as int));
                assert(queued.take(i + 1).last() == msgs@[i as int]@);
            }
            self.log_info(&mut out, &msgs[i]);
            i = i + 1;
        }
        proof {
            assert(queued.take(msgs@.len() as int) =~= queued);
            assert(handle.pending() =~= Seq::<Seq<char>>::empty());
            assert(handle.received() + handle.pending() =~= handle.received());
            let agg = self.aggregates();
            lemma_info_all_writes(agg, queued);
            assert forall|k: int| 0 <= k < queued.len() implies delivery_views(out@).contains(
                (SinkView::Output, #[trigger] queued[k]),
            ) && (agg ==> delivery_views(out@).contains(
                (SinkView::File(seq!['A', 'l', 'l']), queued[k]),
            )) by {
                lemma_info_all_contains(agg, queued, k);
            }
        }
        out
    }

    /// Drains the handle's file queue: every queued message, oldest first,
    /// goes to each file sink named with it, in the order named.
    pub fn poll_files(&self, handle: &mut LoggerHandle) -> (out: Vec<Delivery>)
        requires
            batches_registered(old(handle).fpending(), self.registry()),
        ensures
            delivery_views(out@) == files_all(old(handle).fpending()),
            out@.len() == total_files(old(handle).fpending()),
            forall|i: int, j: int|
                0 <= i < old(handle).fpending().len() && 0 <= j < old(handle).fpending()[i].0.len()
                    ==> delivery_views(out@).contains(
                    (
                        SinkView::File(#[trigger] old(handle).fpending()[i].0[j]),
                        old(handle).fpending()[i].1,
                    ),
                ),
            final(handle).fpending() == Seq::<(Seq<Seq<char>>, Seq<char>)>::empty(),
            final(handle).pending() == old(handle).pending(),
            final(handle).freceived() == old(handle).freceived() + old(handle).fpending(),
            final(handle).fsent() == old(handle).fsent(),
            final(handle).sent() == old(handle).sent(),
            final(handle).received() == old(handle).received(),
            old(handle).wf() ==> final(handle).wf(),
    {
        let mut batches: Vec<(Vec<String>, String)> = Vec::new();
        std::mem::swap(&mut batches, &mut handle.fsender);
        let ghost queued = batch_views(batches@);
        handle.freceived = Ghost(handle.freceived@ + queued);
        let mut out: Vec<Delivery> = Vec::new();
        let mut i: usize = 0;
        while i < batches.len()
            invariant
                0 <= i <= batches@.len(),
                queued == batch_views(batches@),
                batches_registered(queued, self.registry()),
                delivery_views(out@) == files_all(queued.take(i as int)),
            decreases batches@.len() - i,
        {
            let files = &batches[i].0;
            let msg = &batches[i].1;
            let ghost before = delivery_views(out@);
            let mut j: usize = 0;
            while j < files.len()
                invariant
                    0 <= j <= files@.len(),
                    i < batches@.len(),
                    queued == batch_views(batches@),
                    batches_registered(queued, self.registry()),
                    *files == batches@[i as int].0,
                    *msg == batches@[i as int].1,
                    delivery_views(out@) == before + file_targets(
                        texts(files@).take(j as int),
                        msg@,
                    ),
                decreases files@.len() - j,
            {
                proof {
                    assert(queued[i as int].0[j as int] == files@[j as int]@);
                    assert(self.registry().contains(queued[i as int].0[j as int]));
                }
                self.log_info_file(&mut out, &files[j], msg);
                proof {
                    assert(file_targets(texts(files@).take(j + 1), msg@) =~= file_targets(
                        texts(files@).take(j as int),
                        msg@,
                    ).push((SinkView::File(files@[j as int]@), msg@)));
                }
                j = j + 1;
            }
            proof {
                assert(texts(files@).take(files@.len() as int) =~= texts(files@));
                assert(queued.take(i + 1).drop_last() =~= queued.take(i as int));
                assert(queued.take(i + 1).last() == queued[i as int]);
            }
            i = i + 1;
        }
        proof {
            assert(queued.take(batches@.len() as int) =~= queued);
            assert(handle.fpending() =~= Seq::<(Seq<Seq<char>>, Seq<char>)>::empty());
            assert(handle.freceived() + handle.fpending() =~= handle.freceived());
            lemma_files_all_writes(queued, seq![], seq![]);
            assert forall|i: int, j: int|
                0 <= i < queued.len() && 0 <= j < queued[i].0.len() implies delivery_views(
                out@,
            ).contains((SinkView::File(#[trigger] queued[i].0[j]), queued[i].1)) by {
                lemma_files_all_contains(queued, i, j);
            }
        }
        out
    }
}

/// A handle and its logger used together: every message queued through it
/// is delivered at once.
pub struct Logging {
    handle: LoggerHandle,
    logger: Logger,
}

impl Logging {
    /// The handle's queues.
    pub closed spec fn handle(&self) -> LoggerHandle {
        self.handle
    }

    /// The logger's registry and switch.
    pub closed spec fn logger(&self) -> Logger {
        self.logger
    }

    /// Pairs a handle with the logger that drains it.
    pub fn new(logh: LoggerHandle, log: Logger) -> (r: Logging)
        ensures
            r.handle() == logh,
            r.logger() == log,
    {
        Logging { handle: logh, logger: log }
    }

    /// Registers a file sink under `name`, unless one is registered already.
    pub fn add_context(&mut self, name: String)
        ensures
            final(self).handle() == old(self).handle(),
            final(self).logger().aggregates() == old(self).logger().aggregates(),
            old(self).logger().registry().contains(name@) ==> final(self).logger().registry()
                == old(self).logger().registry(),
            !old(self).logger().registry().contains(name@) ==> final(self).logger().registry()
                == old(self).logger().registry().push(name@),
    {
        self.logger.context(name);
    }

    /// Queues an info message and delivers the whole info queue.
    pub fn log_info(&mut self, msg: String) -> (out: Vec<Delivery>)
        ensures
            delivery_views(out@) == info_all(
                old(self).logger().aggregates(),
                old(self).handle().pending().push(msg@),
            ),
            final(self).handle().pending() == Seq::<Seq<char>>::empty(),
            final(self).handle().fpending() == old(self).handle().fpending(),
            final(self).handle().sent() == old(self).handle().sent().push(msg@),
            final(self).handle().received() == old(self).handle().received() + old(self).handle().pending().push(msg@),
            final(self).handle().fsent() == old(self).handle().fsent(),
            final(self).handle().freceived() == old(self).handle().freceived(),
            old(self).handle().wf() ==> final(self).handle().wf(),
            final(self).logger() == old(self).logger(),
    {
        self.handle.log_info(msg);
        self.logger.poll_once(&mut self.handle)
    }

    /// Queues a message for the file sinks named in `files` and delivers the
    /// whole file queue.
    pub fn log_info_files(&mut self, files: Vec<String>, msg: String) -> (out: Vec<Delivery>)
        requires
            batches_registered(
                old(self).handle().fpending().push((texts(files@), msg@)),
                old(self).logger().registry(),
            ),
        ensures
            delivery_views(out@) == files_all(
                old(self).handle().fpending().push((texts(files@), msg@)),
            ),
            final(self).handle().fpending() == Seq::<(Seq<Seq<char>>, Seq<char>)>::empty(),
            final(self).handle().pending() == old(self).handle().pending(),
            final(self).handle().fsent() == old(self).handle().fsent().push((texts(files@), msg@)),
            final(self).handle().freceived() == old(self).handle().freceived() + old(self).handle().fpending().push((texts(files@), msg@)),
            final(self).handle().sent() == old(self).handle().sent(),
            final(self).handle().received() == old(self).handle().received(),
            old(self).handle().wf() ==> final(self).handle().wf(),
            final(self).logger() == old(self).logger(),
    {
        self.handle.send_context(files, msg);
        self.logger.poll_files(&mut self.handle)
    }
}

/// A logging context: messages logged through it go to the terminal (and
/// the aggregate file) and to every file sink it opened.
pub struct Context {
    logger: Logging,
    files: Vec<String>,
}

impl Context {
    /// The shared logging state.
    pub closed spec fn logging(&self) -> Logging {
        self.logger
    }

    /// The names of the file sinks this context writes to, in the order
    /// they were opened (a name opened twice is written to twice).
    pub closed spec fn files(&self) -> Seq<Seq<char>> {
        texts(self.files@)
    }

    /// Every file sink of the context is registered with its logger.
    pub open spec fn wf(&self) -> bool {
        forall|i: int|
            0 <= i < self.files().len() ==> #[trigger] self.logging().logger().registry().contains(
                self.files()[i],
            )
    }

    /// Every context is well formed.
    #[verifier::type_invariant]
    spec fn inv(&self) -> bool {
        self.wf()
    }

    /// A context with no file sinks of its own.
    pub fn new(logger: Logging, dir: String) -> (r: Context)
        ensures
            r.logging() == logger,
            r.files() == Seq::<Seq<char>>::empty(),
    {
        let files: Vec<String> = Vec::new();
        proof {
            assert(texts(files@) =~= Seq::<Seq<char>>::empty());
        }
        Context { logger, files }
    }

    /// A context of a fresh logger, to stand in while `self` is rebuilt.
    fn placeholder() -> (r: Context) {
        let (handle, log) = Logger::new();
        Context::new(Logging::new(handle, log), String::new())
    }

    /// Opens a file sink named `name` for this context: registers it with
    /// the logger (unless a sink of that name is registered already), adds it
    /// to the context's sinks, and returns the path of its file, `name` in `dir`.
    pub fn fsink(&mut self, dir: String, name: String) -> (path: String)
        ensures
            path@ == spec_join(dir@, name@),
            final(self).files() == old(self).files().push(name@),
            final(self).logging().handle() == old(self).logging().handle(),
            final(self).logging().logger().aggregates() == old(self).logging().logger().aggregates(),
            old(self).logging().logger().registry().contains(name@) ==> final(self).logging().logger().registry() == old(self).logging().logger().registry(),
            !old(self).logging().logger().registry().contains(name@) ==> final(self).logging().logger().registry() == old(self).logging().logger().registry().push(
                name@,
            ),
    {
        proof {
            use_type_invariant(&*self);
        }
        let mut tmp = Context::placeholder();
        std::mem::swap(self, &mut tmp);
        let Context { mut logger, mut files } = tmp;
        let path = join_path(dir.as_str(), name.as_str());
        let ghost n = name@;
        let ghost old_reg = logger.logger().registry();
        let ghost old_files = texts(files@);
        let key = name.clone();
        logger.add_context(key);
        files.push(name);
        proof {
            let reg = logger.logger().registry();
            assert(forall|k: Seq<char>| old_reg.contains(k) ==> reg.contains(k)) by {
                assert forall|k: Seq<char>| old_reg.contains(k) implies reg.contains(k) by {
                    let idx = choose|idx: int| 0 <= idx < old_reg.len() && old_reg[idx] == k;
                    assert(reg[idx] == k);
                }
            }
            assert(reg.contains(n)) by {
                if !old_reg.contains(n) {
                    assert(reg[reg.len() - 1] == n);
                }
            }
            assert(texts(files@) =~= old_files.push(n));
            assert forall|i: int| 0 <= i < texts(files@).len() implies #[trigger] reg.contains(
                texts(files@)[i],
            ) by {
                if i < old_files.len() {
                    assert(old(self).logging().logger().registry().contains(old(self).files()[i]));
                }
            }
        }
        *self = Context { logger, files };
        path
    }

    /// Logs an info message: it goes to the terminal (and the aggregate
    /// file), then, when the context has file sinks, to each of them. Those
    /// go out together with the file messages already queued, whose sinks
    /// must then be registered too.
    pub fn log_info(&mut self, msg: String) -> (out: Vec<Delivery>)
        requires
            old(self).files().len() > 0 ==> batches_registered(
                old(self).logging().handle().fpending(),
                old(self).logging().logger().registry(),
            ),
        ensures
            final(self).files() == old(self).files(),
            final(self).logging().logger() == old(self).logging().logger(),
            final(self).logging().handle().pending() == Seq::<Seq<char>>::empty(),
            final(self).logging().handle().sent() == old(self).logging().handle().sent().push(msg@),
            final(self).logging().handle().received() == old(self).logging().handle().received()
                + old(self).logging().handle().pending().push(msg@),
            old(self).logging().handle().wf() ==> final(self).logging().handle().wf(),
            old(self).files().len() == 0 ==> delivery_views(out@) == info_all(
                old(self).logging().logger().aggregates(),
                old(self).logging().handle().pending().push(msg@),
            ) && final(self).logging().handle().fpending() == old(self).logging().handle().fpending()
                && final(self).logging().handle().fsent() == old(self).logging().handle().fsent()
                && final(self).logging().handle().freceived() == old(self).logging().handle().freceived(),
            old(self).files().len() > 0 ==> delivery_views(out@) == info_all(
                old(self).logging().logger().aggregates(),
                old(self).logging().handle().pending().push(msg@),
            ) + files_all(old(self).logging().handle().fpending().push((old(self).files(), msg@)))
                && final(self).logging().handle().fpending() == Seq::<
                (Seq<Seq<char>>, Seq<char>),
            >::empty()
                && final(self).logging().handle().fsent() == old(self).logging().handle().fsent().push(
                (old(self).files(), msg@),
            )
                && final(self).logging().handle().freceived() == old(self).logging().handle().freceived()
                + old(self).logging().handle().fpending().push((old(self).files(), msg@)),
    {
        proof {
            use_type_invariant(&*self);
        }
        let mut tmp = Context::placeholder();
        std::mem::swap(self, &mut tmp);
        let Context { mut logger, files } = tmp;
        let copy = msg.clone();
        let mut out = logger.log_info(copy);
        if files.len() > 0 {
            let names = copy_strings(&files);
            proof {
                let reg = logger.logger().registry();
                let q = logger.handle().fpending().push((texts(names@), msg@));
                assert forall|i: int, j: int| 0 <= i < q.len() && 0 <= j < q[i].0.len() implies #[trigger] reg.contains(
                    q[i].0[j],
                ) by {
                    if i < q.len() - 1 {
                        assert(q[i] == logger.handle().fpending()[i]);
                    } else {
                        assert(q[i].0 == texts(files@));
                        assert(old(self).logging().logger().registry().contains(old(self).files()[j]));
                    }
                }
            }
            let mut more = logger.log_info_files(names, msg);
            let ghost first = out@;
            let ghost second = more@;
            out.append(&mut more);
            proof {
                assert(delivery_views(out@) =~= delivery_views(first) + delivery_views(second));
            }
        }
        proof {
            assert forall|i: int| 0 <= i < texts(files@).len() implies #[trigger] logger.logger().registry().contains(
                texts(files@)[i],
            ) by {
                assert(old(self).logging().logger().registry().contains(old(self).files()[i]));
            }
        }
        *self = Context { logger, files };
        out
    }
}

} // verus!
