use vstd::prelude::*;
use crate::BUFSIZE;
use crate::config::{Config, trim_for, chunks_for, window_bytes};
use crate::ring::{ChunkRing, pushed, pushed_all, last_n, lemma_ring_keeps_latest};
use crate::state::{Action, State, mode_after, lemma_finish_is_terminal};

verus! {

/// What the transfer loop does next.
#[derive(PartialEq, Eq, Structural, Debug, Clone, Copy)]
pub enum Step {
    /// Read one whole chunk of input and hand it to `push_chunk`.
    ReadChunk,
    /// Write what `drain` returns.
    Drain,
    /// Read what input is there, write it, and report the count to `copied`.
    ReadAny,
    /// Stop.
    Stop,
}

/// All chunks in `s` are whole chunks.
pub open spec fn whole_chunks(s: Seq<Seq<u8>>) -> bool {
    forall|i: int| 0 <= i < s.len() ==> #[trigger] s[i].len() == BUFSIZE
}

/// The chunks of `s` laid end to end.
pub open spec fn concat(s: Seq<Seq<u8>>) -> Seq<u8>
    decreases s.len(),
{
    if s.len() == 0 {
        Seq::empty()
    } else {
        s[0] + concat(s.drop_first())
    }
}

/// Bytes held in the ring as the status line shows them: whole chunks, less
/// the trim offset once the ring is full.
pub open spec fn buffered_for(len: nat, cap: nat, offset: nat) -> int {
    if len == cap {
        len * BUFSIZE - offset
    } else {
        len * BUFSIZE
    }
}

/// The bytes that draining a ring of `items` sends out: all of them, less the
/// first `offset` bytes of the oldest chunk when the ring is full.
pub open spec fn drained(items: Seq<Seq<u8>>, cap: nat, offset: nat) -> Seq<u8> {
    if items.len() == cap {
        concat(items).skip(offset as int)
    } else {
        concat(items)
    }
}

/// The step for mode `mode`; `copying` tells whether the ring was already
/// drained since recording began.
pub open spec fn step_for(mode: Action, copying: bool) -> Step {
    match mode {
        Action::Buffer => Step::ReadChunk,
        Action::Record => if copying {
            Step::ReadAny
        } else {
            Step::Drain
        },
        Action::Finish => Step::Stop,
    }
}

pub proof fn lemma_concat_len(s: Seq<Seq<u8>>)
    requires
        whole_chunks(s),
    ensures
        concat(s).len() == s.len() * BUFSIZE,
    decreases s.len(),
{
    if s.len() > 0 {
        lemma_concat_len(s.drop_first());
    }
}

pub proof fn lemma_concat_append(a: Seq<Seq<u8>>, b: Seq<Seq<u8>>)
    ensures
        concat(a + b) == concat(a) + concat(b),
    decreases a.len(),
{
    if a.len() == 0 {
        assert(a + b =~= b);
        assert(Seq::<u8>::empty() + concat(b) =~= concat(b));
    } else {
        assert((a + b).drop_first() =~= a.drop_first() + b);
        lemma_concat_append(a.drop_first(), b);
        assert(a[0] + (concat(a.drop_first()) + concat(b)) =~= (a[0] + concat(a.drop_first()))
            + concat(b));
    }
}

/// The decisions of the transfer loop, and the ring it fills while buffering.
pub struct Recorder {
    ring: ChunkRing,
    config: Config,
    copying: bool,
}

impl Recorder {
    /// The chunks in the ring, oldest first.
    pub closed spec fn items(&self) -> Seq<Seq<u8>> {
        self.ring@
    }

    pub closed spec fn config(&self) -> Config {
        self.config
    }

    /// Whether the ring was already drained since recording began.
    pub closed spec fn copying(&self) -> bool {
        self.copying
    }

    pub closed spec fn wf(&self) -> bool {
        &&& self.ring.wf()
        &&& self.config.valid()
        &&& self.ring.cap() == self.config.capacity
        &&& whole_chunks(self.ring@)
    }

    /// A recorder that buffers into an empty ring sized by `config`.
    pub fn new(config: Config) -> (r: Recorder)
        requires
            config.valid(),
        ensures
            r.wf(),
            r.items() == Seq::<Seq<u8>>::empty(),
            r.config() == config,
            !r.copying(),
    {
        Recorder { ring: ChunkRing::new(config.capacity), config, copying: false }
    }

    /// The number of chunks in the ring.
    pub fn held_chunks(&self) -> (r: usize)
        ensures
            r == self.items().len(),
    {
        self.ring.len()
    }

    /// The step to take in mode `mode`.
    pub fn next_step(&self, mode: Action) -> (r: Step)
        ensures
            r == step_for(mode, self.copying()),
    {
        match mode {
            Action::Buffer => Step::ReadChunk,
            Action::Record => if self.copying {
                Step::ReadAny
            } else {
                Step::Drain
            },
            Action::Finish => Step::Stop,
        }
    }

    /// Takes one whole chunk read while buffering into the ring, and sets
    /// `buffered` to match the ring.
    pub fn push_chunk(&mut self, state: &mut State, chunk: Vec<u8>)
        requires
            old(self).wf(),
            chunk@.len() == BUFSIZE,
        ensures
            final(self).wf(),
            final(self).config() == old(self).config(),
            !final(self).copying(),
            final(self).items() == pushed(old(self).items(), old(self).config().capacity as nat, chunk@),
            final(state).buffered == buffered_for(
                final(self).items().len(),
                final(self).config().capacity as nat,
                final(self).config().offset as nat,
            ),
            final(state).action == old(state).action,
            final(state).written == old(state).written,
            final(state).byte_rate == old(state).byte_rate,
            final(state).seconds == old(state).seconds,
    {
        proof {
            lemma_config_bounds(self.config);
        }
        let ghost before = self.ring@;
        self.ring.push(chunk);
        self.copying = false;
        assert(whole_chunks(self.ring@)) by {
            assert forall|i: int| 0 <= i < self.ring@.len() implies #[trigger] self.ring@[i].len() == BUFSIZE by {
                if before.len() < self.config.capacity {
                    assert(self.ring@ == before.push(chunk@));
                } else {
                    assert(self.ring@ == before.push(chunk@).drop_first());
                    assert(self.ring@[i] == before.push(chunk@)[i + 1]);
                }
            }
        }
        proof {
            self.ring.lemma_len_le_cap();
        }
        let len = self.ring.len();
        let mut held: usize = len * BUFSIZE;
        if self.ring.is_full() {
            held = held - self.config.offset;
        }
        state.buffered = held;
    }

    /// Empties the ring on the switch to recording and returns the bytes to
    /// write, oldest first. On a full ring the oldest chunk loses its first
    /// `offset` bytes, so that exactly the window is sent. `written` grows by
    /// the number of bytes returned and `buffered` drops to 0.
    pub fn drain(&mut self, state: &mut State) -> (r: Vec<u8>)
        requires
            old(self).wf(),
            old(state).written + old(self).items().len() * BUFSIZE <= usize::MAX,
        ensures
            final(self).wf(),
            final(self).config() == old(self).config(),
            final(self).copying(),
            final(self).items() == Seq::<Seq<u8>>::empty(),
            r@ == drained(old(self).items(), old(self).config().capacity as nat, old(self).config().offset as nat),
            r@.len() == (if old(self).items().len() == old(self).config().capacity {
                old(self).config().window() as int
            } else {
                old(self).items().len() * BUFSIZE
            }),
            final(state).written == old(state).written + r@.len(),
            final(state).buffered == 0,
            final(state).buffered == buffered_for(
                final(self).items().len(),
                final(self).config().capacity as nat,
                final(self).config().offset as nat,
            ),
            final(state).action == old(state).action,
            final(state).byte_rate == old(state).byte_rate,
            final(state).seconds == old(state).seconds,
    {
        proof {
            lemma_config_bounds(self.config);
            lemma_concat_len(self.ring@);
            self.ring.lemma_len_le_cap();
        }
        let ghost config0 = self.config;
        let ghost items0 = self.ring@;
        let ghost target = drained(items0, self.config.capacity as nat, self.config.offset as nat);
        let len = self.ring.len();
        state.written = state.written + len * BUFSIZE;
        let mut out: Vec<u8> = Vec::new();
        if self.ring.is_full() {
            if let Ok(mut first) = self.ring.pop() {
                // the oldest chunk loses the slack between whole chunks and the window
                let mut tail = first.split_off(self.config.offset);
                out.append(&mut tail);
                state.written = state.written - self.config.offset;
                assert(out@ + concat(self.ring@) =~= target);
            }
        } else {
            assert(out@ + concat(self.ring@) =~= target);
        }
        while self.ring.peek_has_more()
            invariant
                self.ring.wf(),
                self.ring.cap() == self.config.capacity,
                self.config == config0,
                self.config.valid(),
                whole_chunks(self.ring@),
                out@ + concat(self.ring@) == target,
            decreases self.ring@.len(),
        {
            let ghost rest = self.ring@;
            if let Ok(mut chunk) = self.ring.pop() {
                let ghost c = chunk@;
                out.append(&mut chunk);
                assert(whole_chunks(self.ring@)) by {
                    assert forall|i: int| 0 <= i < self.ring@.len() implies #[trigger] self.ring@[i].len() == BUFSIZE by {
                        assert(self.ring@[i] == rest[i + 1]);
                    }
                }
                assert(out@ + concat(self.ring@) =~= target);
            }
        }
        assert(out@ =~= target);
        state.buffered = 0;
        self.copying = true;
        out
    }

    /// Reports `n` bytes read and written while recording. A read of no bytes
    /// means the input is closed, and the state is finished.
    pub fn copied(&mut self, state: &mut State, n: usize)
        requires
            old(self).wf(),
            old(state).written + n <= usize::MAX,
        ensures
            *final(self) == *old(self),
            n == 0 ==> final(state).action == Action::Finish,
            n > 0 ==> final(state).action == old(state).action,
            final(state).written == old(state).written + n,
            final(state).buffered == old(state).buffered,
            final(state).byte_rate == old(state).byte_rate,
            final(state).seconds == old(state).seconds,
    {
        if n == 0 {
            state.action = Action::Finish;
        } else {
            state.written = state.written + n;
        }
    }
}

/// A valid configuration has a ring of at least two chunks and a trim offset
/// shorter than a chunk.
pub proof fn lemma_config_bounds(config: Config)
    requires
        config.valid(),
    ensures
        config.capacity >= 2,
        config.offset < BUFSIZE,
        config.offset + config.window() == config.capacity * BUFSIZE,
{
    let w = window_bytes(config.byte_rate as nat, config.seconds as nat);
    assert(w >= 2048) by (nonlinear_arith)
        requires
            w == config.byte_rate * config.seconds,
            config.byte_rate >= 1024,
            config.seconds >= 2,
    ;
    assert(chunks_for(w) * 1024 <= w + 1023);
    assert(chunks_for(w) * 1024 >= w);
}

/// A forced finish halts the transfer loop: once the state is finished, the
/// next step is to stop, whatever modes are asked for afterwards and wherever
/// the loop stood.
pub proof fn lemma_finish_halts(requests: Seq<Action>, copying: bool)
    ensures
        step_for(mode_after(Action::Finish, requests), copying) == Step::Stop,
{
    lemma_finish_is_terminal(requests);
}

/// Draining a ring that was filled by pushing `chunks` (at least a ring's worth)
/// sends exactly the last `window` bytes of all the input, byte for byte.
pub proof fn lemma_drain_is_window(config: Config, chunks: Seq<Seq<u8>>)
    requires
        config.valid(),
        whole_chunks(chunks),
        chunks.len() >= config.capacity,
    ensures
        drained(
            pushed_all(Seq::empty(), config.capacity as nat, chunks),
            config.capacity as nat,
            config.offset as nat,
        ) == concat(chunks).skip(concat(chunks).len() - config.window()),
        concat(chunks).len() >= config.window(),
{
    let cap = config.capacity as nat;
    lemma_config_bounds(config);
    lemma_ring_keeps_latest(Seq::empty(), cap, chunks);
    assert(Seq::<Seq<u8>>::empty() + chunks =~= chunks);
    let k = chunks.len() - cap;
    let head = chunks.subrange(0, k);
    let tail = last_n(chunks, cap);
    assert(tail =~= chunks.subrange(k, chunks.len() as int));
    assert(head + tail =~= chunks);
    lemma_concat_append(head, tail);
    assert(whole_chunks(head));
    assert(whole_chunks(tail));
    lemma_concat_len(head);
    lemma_concat_len(tail);
    lemma_concat_len(chunks);
    assert(k * BUFSIZE + cap * BUFSIZE == chunks.len() * BUFSIZE) by (nonlinear_arith)
        requires
            k == chunks.len() - cap,
    ;
    assert(concat(tail).skip(config.offset as int) =~= concat(chunks).skip(
        concat(chunks).len() - config.window(),
    ));
}

/// `written` after reporting each of the non-empty reads `reads` in turn,
/// starting from `written`.
pub open spec fn written_after(written: int, reads: Seq<usize>) -> int
    decreases reads.len(),
{
    if reads.len() == 0 {
        written
    } else {
        written_after(written + reads[0], reads.drop_first())
    }
}

/// The total of `reads`.
pub open spec fn total(reads: Seq<usize>) -> int
    decreases reads.len(),
{
    if reads.len() == 0 {
        0
    } else {
        reads[0] + total(reads.drop_first())
    }
}

/// After a drain of a full ring and then direct copies of `reads`, `written`
/// has grown by exactly the window plus what was copied: the trimmed slack is
/// never counted.
pub proof fn lemma_written_after_recording(
    config: Config,
    items: Seq<Seq<u8>>,
    written: int,
    reads: Seq<usize>,
)
    requires
        config.valid(),
        whole_chunks(items),
        items.len() == config.capacity,
    ensures
        written_after(
            written + drained(items, config.capacity as nat, config.offset as nat).len(),
            reads,
        ) == written + config.window() + total(reads),
{
    lemma_config_bounds(config);
    lemma_concat_len(items);
    lemma_written_after_total(written + config.window(), reads);
}

pub proof fn lemma_written_after_total(written: int, reads: Seq<usize>)
    ensures
        written_after(written, reads) == written + total(reads),
    decreases reads.len(),
{
    if reads.len() > 0 {
        lemma_written_after_total(written + reads[0], reads.drop_first());
    }
}

} // verus!
