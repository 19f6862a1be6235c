//! The log normalisation pipeline: raw text chunks of one output channel are
//! coalesced by a time-gap rule into indexed, typed entries.
use vstd::prelude::*;

use crate::index::EntryIndexProvider;

verus! {

/// What an entry is, by the channel that produced it.
#[derive(PartialEq, Eq, Structural, Clone, Copy, Debug)]
pub enum NormalizedEntryType {
    AssistantMessage,
    SystemMessage,
}

/// One normalised log record.
pub struct NormalizedEntry {
    pub timestamp: Option<String>,
    pub entry_type: NormalizedEntryType,
    pub content: String,
    pub metadata: Option<String>,
}

/// An entry together with the index that orders it in its log.
pub struct LogPatch {
    pub index: u64,
    pub entry: NormalizedEntry,
}

/// What `strip_ansi_escapes::strip_str` makes of a text.
pub uninterp spec fn ansi_stripped(s: Seq<char>) -> Seq<char>;

/// Relies on `strip_ansi_escapes::strip_str`: the text with its terminal
/// escape sequences removed, which depends on the text alone.
#[verifier::external_body]
fn strip_ansi(s: &str) -> (r: String)
    ensures
        r@ == ansi_stripped(s@),
{
    strip_ansi_escapes::strip_str(s)
}

/// Relies on `String::push_str`: the text of `t` is appended to `s`.
#[verifier::external_body]
pub(crate) fn push_text(s: &mut String, t: &str)
    ensures
        final(s)@ == old(s)@ + t@,
{
    s.push_str(t)
}

/// An entry of type `kind` whose content is the already cleaned `content`.
pub fn entry_from_stripped(kind: NormalizedEntryType, content: String) -> (r: NormalizedEntry)
    ensures
        r.entry_type == kind,
        r.content@ == content@,
        r.timestamp.is_none(),
        r.metadata.is_none(),
{
    NormalizedEntry { timestamp: None, entry_type: kind, content, metadata: None }
}

/// An entry of type `kind` for the raw text `raw`, terminal escapes removed.
pub fn normalize_text(kind: NormalizedEntryType, raw: &str) -> (r: NormalizedEntry)
    ensures
        r.entry_type == kind,
        r.content@ == ansi_stripped(raw@),
        r.timestamp.is_none(),
        r.metadata.is_none(),
{
    let content = strip_ansi(raw);
    entry_from_stripped(kind, content)
}

/// The pipeline's state as text: what is buffered, when the last non-empty
/// chunk came, and the raw texts flushed so far.
pub struct PipeState {
    pub pending: Seq<char>,
    pub last: u64,
    pub out: Seq<Seq<char>>,
}

/// Whether text buffered since `last` is due at time `now`: something is
/// buffered and more than `gap` has passed.
pub open spec fn is_due(pending: Seq<char>, last: u64, now: u64, gap: u64) -> bool {
    pending.len() > 0 && now as int - last as int > gap as int
}

/// A chunk arrives at time `t`. An empty chunk changes nothing. Otherwise the
/// buffer is first flushed if it is due, and the chunk is buffered.
pub open spec fn step(st: PipeState, chunk: Seq<char>, t: u64, gap: u64) -> PipeState {
    if chunk.len() == 0 {
        st
    } else if is_due(st.pending, st.last, t, gap) {
        PipeState { pending: chunk, last: t, out: st.out.push(st.pending) }
    } else {
        PipeState { pending: st.pending + chunk, last: t, out: st.out }
    }
}

/// The channel closes: what is still buffered becomes the last text.
pub open spec fn close(st: PipeState) -> Seq<Seq<char>> {
    if st.pending.len() > 0 {
        st.out.push(st.pending)
    } else {
        st.out
    }
}

pub open spec fn initial() -> PipeState {
    PipeState { pending: Seq::empty(), last: 0, out: Seq::empty() }
}

/// The state after the first `n` chunks, chunk `i` arriving at `times[i]`.
pub open spec fn run(chunks: Seq<Seq<char>>, times: Seq<u64>, gap: u64, n: nat) -> PipeState
    decreases n,
{
    if n == 0 {
        initial()
    } else {
        step(run(chunks, times, gap, (n - 1) as nat), chunks[n - 1], times[n - 1], gap)
    }
}

/// The raw texts of the entries that a channel yields for `chunks` arriving
/// at `times`, and then closing.
pub open spec fn coalesce(chunks: Seq<Seq<char>>, times: Seq<u64>, gap: u64) -> Seq<Seq<char>> {
    close(run(chunks, times, gap, chunks.len()))
}

/// `r` holds, in order, the entries of type `kind` for the raw texts `texts`,
/// indexed from `first` on.
pub open spec fn patches_for(
    r: Seq<LogPatch>,
    texts: Seq<Seq<char>>,
    first: int,
    kind: NormalizedEntryType,
) -> bool {
    &&& r.len() == texts.len()
    &&& forall|i: int|
        0 <= i < r.len() ==> {
            &&& (#[trigger] r[i]).index == first + i
            &&& r[i].entry.entry_type == kind
            &&& r[i].entry.content@ == ansi_stripped(texts[i])
            &&& r[i].entry.timestamp.is_none()
            &&& r[i].entry.metadata.is_none()
        }
}

pub proof fn lemma_run_out_len(chunks: Seq<Seq<char>>, times: Seq<u64>, gap: u64, n: nat)
    ensures
        run(chunks, times, gap, n).out.len() <= n,
    decreases n,
{
    if n > 0 {
        lemma_run_out_len(chunks, times, gap, (n - 1) as nat);
    }
}

/// No text is lost or repeated: whatever the timing, the entries' raw texts,
/// joined, are the chunks joined.
pub proof fn lemma_coalesce_keeps_text(chunks: Seq<Seq<char>>, times: Seq<u64>, gap: u64)
    requires
        times.len() == chunks.len(),
    ensures
        coalesce(chunks, times, gap).flatten() == chunks.flatten(),
{
    broadcast use Seq::lemma_flatten_push;

    lemma_run_keeps_text(chunks, times, gap, chunks.len());
    assert(chunks.subrange(0, chunks.len() as int) =~= chunks);
    let st = run(chunks, times, gap, chunks.len());
    if st.pending.len() == 0 {
        assert(st.out.flatten() + st.pending =~= st.out.flatten());
    }
}

proof fn lemma_run_keeps_text(chunks: Seq<Seq<char>>, times: Seq<u64>, gap: u64, n: nat)
    requires
        n <= chunks.len(),
    ensures
        run(chunks, times, gap, n).out.flatten() + run(chunks, times, gap, n).pending
            == chunks.subrange(0, n as int).flatten(),
    decreases n,
{
    broadcast use Seq::lemma_flatten_push;

    if n == 0 {
        assert(chunks.subrange(0, 0) =~= Seq::<Seq<char>>::empty());
        assert(Seq::<Seq<char>>::empty().flatten() =~= Seq::<char>::empty());
        assert(initial().out.flatten() + initial().pending =~= Seq::<char>::empty());
    } else {
        lemma_run_keeps_text(chunks, times, gap, (n - 1) as nat);
        let prev = run(chunks, times, gap, (n - 1) as nat);
        let c = chunks[n - 1];
        assert(chunks.subrange(0, n as int) =~= chunks.subrange(0, n - 1).push(c));
        if c.len() == 0 {
            assert(chunks.subrange(0, n - 1).flatten() + c =~= chunks.subrange(0, n - 1).flatten());
        } else if is_due(prev.pending, prev.last, times[n - 1], gap) {
            assert(prev.out.push(prev.pending).flatten() + c =~= prev.out.flatten() + prev.pending
                + c);
        } else {
            assert(prev.out.flatten() + (prev.pending + c) =~= prev.out.flatten() + prev.pending
                + c);
        }
    }
}

/// A chunk, then a silence longer than the window, then another chunk: two
/// entries, each holding only its own chunk.
pub proof fn lemma_silence_splits(a: Seq<char>, b: Seq<char>, ta: u64, tb: u64, gap: u64)
    requires
        a.len() > 0,
        b.len() > 0,
        tb as int - ta as int > gap as int,
    ensures
        coalesce(seq![a, b], seq![ta, tb], gap) == seq![a, b],
{
    let chunks = seq![a, b];
    let times = seq![ta, tb];
    assert(run(chunks, times, gap, 0) == initial());
    assert(initial().pending + a =~= a);
    let s1 = run(chunks, times, gap, 1);
    assert(s1.pending == a && s1.last == ta && s1.out == Seq::<Seq<char>>::empty());
    let s2 = run(chunks, times, gap, 2);
    assert(s2.out =~= seq![a]);
    assert(close(s2) =~= seq![a, b]);
}

/// Coalesces the chunks of one output channel into entries of one type.
pub struct PlainTextLogProcessor {
    /// The type of every entry this channel yields.
    pub entry_type: NormalizedEntryType,
    /// The quiescence window, in milliseconds.
    pub time_gap_ms: u64,
    /// Text received and not yet flushed.
    pub pending: String,
    /// When the last non-empty chunk arrived, in milliseconds.
    pub last_chunk_ms: u64,
}

impl PlainTextLogProcessor {
    pub open spec fn state(&self) -> PipeState {
        PipeState { pending: self.pending@, last: self.last_chunk_ms, out: Seq::empty() }
    }

    /// A processor with nothing buffered.
    pub fn new(entry_type: NormalizedEntryType, time_gap_ms: u64) -> (r: PlainTextLogProcessor)
        ensures
            r.entry_type == entry_type,
            r.time_gap_ms == time_gap_ms,
            r.state() == initial(),
    {
        let r = PlainTextLogProcessor {
            entry_type,
            time_gap_ms,
            pending: String::new(),
            last_chunk_ms: 0,
        };
        assert(r.state() =~= initial());
        r
    }

    /// Turns what is buffered into an entry with the next index.
    fn take_pending(&mut self, idx: &mut EntryIndexProvider) -> (r: LogPatch)
        requires
            old(idx).next_index() < u64::MAX,
        ensures
            patches_for(seq![r], seq![old(self).pending@], old(idx).next_index() as int, old(self).entry_type),
            final(self).pending@.len() == 0,
            final(self).entry_type == old(self).entry_type,
            final(self).time_gap_ms == old(self).time_gap_ms,
            final(self).last_chunk_ms == old(self).last_chunk_ms,
            final(idx).next_index() == old(idx).next_index() + 1,
    {
        let entry = normalize_text(self.entry_type, self.pending.as_str());
        let index = idx.next();
        self.pending = String::new();
        let r = LogPatch { index, entry };
        assert(seq![r][0] == r);
        r
    }

    /// Takes one chunk arriving at `now_ms`; returns the entry flushed because
    /// the text buffered before it was due, if it was.
    pub fn process(&mut self, chunk: &str, now_ms: u64, idx: &mut EntryIndexProvider) -> (r: Vec<LogPatch>)
        requires
            old(idx).next_index() < u64::MAX,
        ensures
            final(self).entry_type == old(self).entry_type,
            final(self).time_gap_ms == old(self).time_gap_ms,
            final(self).state() == ({
                let s = step(old(self).state(), chunk@, now_ms, old(self).time_gap_ms);
                PipeState { out: Seq::empty(), ..s }
            }),
            patches_for(
                r@,
                step(old(self).state(), chunk@, now_ms, old(self).time_gap_ms).out,
                old(idx).next_index() as int,
                old(self).entry_type,
            ),
            final(idx).next_index() == old(idx).next_index() + r@.len(),
    {
        let ghost s = step(self.state(), chunk@, now_ms, self.time_gap_ms);
        let mut r: Vec<LogPatch> = Vec::new();
        if chunk.is_empty() {
            assert(chunk@.len() == 0);
            return r;
        }
        assert(chunk@.len() > 0);
        let due = !self.pending.as_str().is_empty() && now_ms > self.last_chunk_ms && now_ms - self.last_chunk_ms
            > self.time_gap_ms;
        if due {
            let p = self.take_pending(idx);
            r.push(p);
            assert(r@ =~= seq![p]);
        }
        push_text(&mut self.pending, chunk);
        self.last_chunk_ms = now_ms;
        assert(self.state() =~= PipeState { out: Seq::empty(), ..s });
        r
    }

    /// Flushes the buffer if it has been idle longer than the window at
    /// `now_ms`, though no new chunk came.
    pub fn flush_if_idle(&mut self, now_ms: u64, idx: &mut EntryIndexProvider) -> (r: Option<LogPatch>)
        requires
            old(idx).next_index() < u64::MAX,
        ensures
            final(self).entry_type == old(self).entry_type,
            final(self).time_gap_ms == old(self).time_gap_ms,
            final(self).last_chunk_ms == old(self).last_chunk_ms,
            is_due(old(self).pending@, old(self).last_chunk_ms, now_ms, old(self).time_gap_ms)
                <==> r.is_some(),
            r matches Some(p) ==> patches_for(seq![p], seq![old(self).pending@], old(idx).next_index() as int, old(self).entry_type)
                && final(self).pending@.len() == 0 && final(idx).next_index() == old(idx).next_index() + 1,
            r is None ==> final(self).pending@ == old(self).pending@ && final(idx).next_index() == old(idx).next_index(),
    {
        if !self.pending.as_str().is_empty() && now_ms > self.last_chunk_ms && now_ms - self.last_chunk_ms
            > self.time_gap_ms {
            Some(self.take_pending(idx))
        } else {
            None
        }
    }

    /// The channel closed: flushes what is still buffered.
    pub fn finish(&mut self, idx: &mut EntryIndexProvider) -> (r: Option<LogPatch>)
        requires
            old(idx).next_index() < u64::MAX,
        ensures
            final(self).entry_type == old(self).entry_type,
            final(self).time_gap_ms == old(self).time_gap_ms,
            final(self).pending@.len() == 0,
            patches_for(
                match r { Some(p) => seq![p], None => Seq::empty() },
                close(old(self).state()),
                old(idx).next_index() as int,
                old(self).entry_type,
            ),
            final(idx).next_index() == old(idx).next_index() + (if r is Some { 1int } else { 0int }),
    {
        if !self.pending.as_str().is_empty() {
            let p = self.take_pending(idx);
            assert(close(old(self).state()) =~= seq![old(self).pending@]);
            Some(p)
        } else {
            assert(close(old(self).state()) =~= Seq::<Seq<char>>::empty());
            None
        }
    }
}

/// The entries that a channel of type `kind` yields for `chunks`, chunk `i`
/// arriving at `times[i]` milliseconds, and then closing; indices come from
/// `idx`.
pub fn normalize_chunks(
    kind: NormalizedEntryType,
    time_gap_ms: u64,
    chunks: &Vec<String>,
    times: &Vec<u64>,
    idx: &mut EntryIndexProvider,
) -> (r: Vec<LogPatch>)
    requires
        times@.len() == chunks@.len(),
        old(idx).next_index() + chunks@.len() < u64::MAX,
    ensures
        patches_for(
            r@,
            coalesce(crate::command::strs(chunks@), times@, time_gap_ms),
            old(idx).next_index() as int,
            kind,
        ),
        final(idx).next_index() == old(idx).next_index() + r@.len(),
{
    let ghost cs = crate::command::strs(chunks@);
    let ghost first = idx.next_index() as int;
    let mut p = PlainTextLogProcessor::new(kind, time_gap_ms);
    let mut r: Vec<LogPatch> = Vec::new();
    let mut i: usize = 0;
    while i < chunks.len()
        invariant
            i <= chunks@.len(),
            times@.len() == chunks@.len(),
            cs == crate::command::strs(chunks@),
            p.entry_type == kind,
            p.time_gap_ms == time_gap_ms,
            p.state() == (PipeState { out: Seq::empty(), ..run(cs, times@, time_gap_ms, i as nat) }),
            patches_for(r@, run(cs, times@, time_gap_ms, i as nat).out, first, kind),
            idx.next_index() == first + r@.len(),
            first + chunks@.len() < u64::MAX,
        decreases chunks@.len() - i,
    {
        proof {
            lemma_run_out_len(cs, times@, time_gap_ms, i as nat);
        }
        let ghost before = r@;
        let out = p.process(chunks[i].as_str(), times[i], idx);
        let ghost prev = run(cs, times@, time_gap_ms, i as nat);
        let mut out = out;
        r.append(&mut out);
        i = i + 1;
        proof {
            let cur = run(cs, times@, time_gap_ms, i as nat);
            let fresh = step(PipeState { out: Seq::empty(), ..prev }, cs[i - 1], times@[i - 1], time_gap_ms);
            assert(cur.out =~= prev.out + fresh.out);
            assert forall|k: int| 0 <= k < r@.len() implies {
                &&& (#[trigger] r@[k]).index == first + k
                &&& r@[k].entry.entry_type == kind
                &&& r@[k].entry.content@ == ansi_stripped(cur.out[k])
                &&& r@[k].entry.timestamp.is_none()
                &&& r@[k].entry.metadata.is_none()
            } by {
                if k >= before.len() {
                    assert(r@[k] == r@.subrange(before.len() as int, r@.len() as int)[k - before.len()]);
                }
            }
        }
    }
    proof {
        lemma_run_out_len(cs, times@, time_gap_ms, i as nat);
    }
    let ghost pre = p.state();
    let ghost before = r@;
    let last = p.finish(idx);
    match last {
        Some(e) => {
            r.push(e);
        },
        None => {},
    }
    proof {
        let st = run(cs, times@, time_gap_ms, chunks@.len());
        let tail = close(pre);
        assert(cs.len() == chunks@.len());
        assert(close(st) =~= st.out + tail);
        assert forall|k: int| 0 <= k < r@.len() implies {
            &&& (#[trigger] r@[k]).index == first + k
            &&& r@[k].entry.entry_type == kind
            &&& r@[k].entry.content@ == ansi_stripped(close(st)[k])
            &&& r@[k].entry.timestamp.is_none()
            &&& r@[k].entry.metadata.is_none()
        } by {
            if k >= before.len() {
                let e = last.unwrap();
                assert(r@[k] == e);
                assert(seq![e][0] == e);
            }
        }
    }
    r
}

} // verus!
