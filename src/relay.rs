use vstd::prelude::*;
use crate::trace::opt_seq;

verus! {

/// Text that an output line's bytes decode to, with every invalid UTF-8
/// sequence replaced.
pub uninterp spec fn lossy_text(b: Seq<u8>) -> Seq<char>;

/// Relies on `String::from_utf8_lossy`: the text depends on the bytes alone,
/// and no bytes give no text.
#[verifier::external_body]
fn decode_lossy(b: &[u8]) -> (r: String)
    ensures
        r@ == lossy_text(b@),
        b@.len() == 0 ==> r@.len() == 0,
{
    String::from_utf8_lossy(b).into_owned()
}

/// The worker stream a line came from.
#[derive(Clone, Copy, Debug, PartialEq, Eq, Structural)]
pub enum StreamKind {
    Stdout,
    Stderr,
}

/// One event read from the worker: a raw output line, or anything else
/// (its exit, an error) that carries no line.
#[derive(Debug)]
pub enum WorkerEvent {
    Stdout(Vec<u8>),
    Stderr(Vec<u8>),
    Terminated,
    Other,
}

/// A decoded line, classified by the stream it came from.
#[derive(Debug)]
pub struct OutputLine {
    pub stream: StreamKind,
    pub text: String,
}

impl View for OutputLine {
    type V = (StreamKind, Seq<char>);

    open spec fn view(&self) -> (StreamKind, Seq<char>) {
        (self.stream, self.text@)
    }
}

/// The name of the host event channel that carries lines of a stream.
pub open spec fn channel_text(k: StreamKind) -> Seq<char> {
    match k {
        StreamKind::Stdout => "sidecar-stdout"@,
        StreamKind::Stderr => "sidecar-stderr"@,
    }
}

/// The host event channel for lines of stream `k`.
pub fn channel_name(k: StreamKind) -> (r: &'static str)
    ensures
        r@ == channel_text(k),
{
    match k {
        StreamKind::Stdout => "sidecar-stdout",
        StreamKind::Stderr => "sidecar-stderr",
    }
}

/// The line an event carries, if any.
pub open spec fn event_line(e: WorkerEvent) -> Option<(StreamKind, Seq<char>)> {
    match e {
        WorkerEvent::Stdout(b) => Some((StreamKind::Stdout, lossy_text(b@))),
        WorkerEvent::Stderr(b) => Some((StreamKind::Stderr, lossy_text(b@))),
        _ => None,
    }
}

/// The lines carried by `evs`: one per output event, in the order the
/// events arrived.
pub open spec fn lines_of(evs: Seq<WorkerEvent>) -> Seq<(StreamKind, Seq<char>)>
    decreases evs.len(),
{
    if evs.len() == 0 {
        Seq::empty()
    } else {
        lines_of(evs.drop_last()) + opt_seq(event_line(evs.last()))
    }
}

pub open spec fn views_of(ls: Seq<OutputLine>) -> Seq<(StreamKind, Seq<char>)> {
    ls.map_values(|l: OutputLine| l@)
}

/// Decodes and classifies one event.
pub fn relay_event(ev: &WorkerEvent) -> (r: Option<OutputLine>)
    ensures
        (r is Some) == (event_line(*ev) is Some),
        r is Some ==> r->Some_0@ == event_line(*ev)->Some_0,
{
    match ev {
        WorkerEvent::Stdout(b) => Some(OutputLine { stream: StreamKind::Stdout, text: decode_lossy(b.as_slice()) }),
        WorkerEvent::Stderr(b) => Some(OutputLine { stream: StreamKind::Stderr, text: decode_lossy(b.as_slice()) }),
        _ => None,
    }
}

/// Decodes and classifies a batch of events, keeping their order.
pub fn relay_all(evs: &Vec<WorkerEvent>) -> (r: Vec<OutputLine>)
    ensures
        views_of(r@) == lines_of(evs@),
{
    let mut r: Vec<OutputLine> = Vec::new();
    let mut i: usize = 0;
    while i < evs.len()
        invariant
            i <= evs@.len(),
            views_of(r@) == lines_of(evs@.subrange(0, i as int)),
        decreases evs@.len() - i,
    {
        let ghost before = r@;
        assert(evs@.subrange(0, i + 1).drop_last() =~= evs@.subrange(0, i as int));
        assert(evs@.subrange(0, i + 1).last() == evs@[i as int]);
        match relay_event(&evs[i]) {
            Some(line) => {
                r.push(line);
                assert(views_of(r@) =~= views_of(before) + seq![line@]);
            },
            None => {},
        }
        assert(views_of(r@) =~= lines_of(evs@.subrange(0, i + 1)));
        i = i + 1;
    }
    assert(evs@.subrange(0, evs@.len() as int) =~= evs@);
    r
}

/// Relaying events batch by batch, as they arrive, delivers the same lines
/// in the same order as relaying them all at once: every line exactly once.
pub proof fn lemma_relay_in_batches(a: Seq<WorkerEvent>, b: Seq<WorkerEvent>)
    ensures
        lines_of(a + b) == lines_of(a) + lines_of(b),
    decreases b.len(),
{
    if b.len() == 0 {
        assert(a + b =~= a);
        assert(lines_of(a) + lines_of(b) =~= lines_of(a));
    } else {
        lemma_relay_in_batches(a, b.drop_last());
        assert((a + b).drop_last() =~= a + b.drop_last());
        assert((a + b).last() == b.last());
        assert(lines_of(a + b) =~= lines_of(a) + lines_of(b));
    }
}

} // verus!
