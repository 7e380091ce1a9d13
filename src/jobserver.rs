//! A jobserver client over a token queue: the pool of concurrency tokens,
//! its blocking mode, and the handoff string that gives a child process the
//! same pool.

use vstd::prelude::*;
use crate::decimal::{int_text, parsed_i32, parse_i32, push_int_text};
use crate::outside::{push_char, push_str};
use crate::text::{chars_of, find_char, first_index};
use crate::token_queue::TokenQueue;

verus! {

/// The byte that a new pool is filled with.
pub const FILL_BYTE: u8 = 124;

/// The byte released when no token value is handed back.
pub const DEFAULT_RELEASE_BYTE: u8 = 43;

/// One token taken from the pool.
#[derive(Debug)]
pub struct Acquired {
    pub byte: u8,
}

/// Whether reads from the pool block, or whether the pool is shared with an
/// outside peer and cannot be switched to non-blocking reads. The only
/// change allowed is from `Blocking` to `NonBlocking`.
#[derive(PartialEq, Eq, Structural, Clone, Copy, Debug)]
pub enum BlockingMode {
    Shared,
    Blocking,
    NonBlocking,
}

/// How the pool was reached, so that a child process can be told the same.
#[derive(Debug)]
pub enum CreationArg {
    Fds { read: i32, write: i32 },
    Fifo(String),
}

/// What the client refuses to do.
#[derive(PartialEq, Eq, Structural, Clone, Copy, Debug)]
pub enum JobserverError {
    /// Non-blocking acquisition on a pool shared with an outside peer.
    Unsupported,
}

/// Why a handoff string was refused.
#[derive(PartialEq, Eq, Structural, Clone, Copy, Debug)]
pub enum HandoffError {
    /// `fifo` with no `:` and path after it.
    MissingFifoPath,
    /// Neither `fifo:PATH` nor `R,W`.
    UnknownForm,
    /// The read descriptor is not an integer.
    BadReadFd,
    /// The write descriptor is not an integer.
    BadWriteFd,
    /// A negative descriptor: the jobserver is disabled.
    NegativeFd(i32),
}

/// The token that a read from the front of `q` yields, if any.
pub open spec fn taken(q: Seq<u8>) -> Option<u8> {
    if q.len() > 0 { Some(q[0]) } else { None }
}

/// The queue after one token is taken from it, if there was one.
pub open spec fn after_take(q: Seq<u8>) -> Seq<u8> {
    if q.len() > 0 { q.drop_first() } else { q }
}

/// The byte that a release writes back.
pub open spec fn release_byte(data: Option<u8>) -> u8 {
    match data {
        Some(b) => b,
        None => DEFAULT_RELEASE_BYTE,
    }
}

/// The queue of a freshly made pool of `limit` tokens.
pub open spec fn fresh_pool(limit: nat) -> Seq<u8> {
    Seq::new(limit, |i: int| FILL_BYTE)
}

/// The single legal change of blocking mode, or none.
pub open spec fn mode_follows(before: BlockingMode, after: BlockingMode) -> bool {
    before == after || (before == BlockingMode::Blocking && after == BlockingMode::NonBlocking)
}

/// The handoff string of a creation record.
pub open spec fn handoff_text(arg: CreationArg) -> Seq<char> {
    match arg {
        CreationArg::Fifo(path) => seq!['f', 'i', 'f', 'o', ':'] + path@,
        CreationArg::Fds { read, write } => int_text(read as int) + seq![','] + int_text(write as int),
    }
}

/// What a handoff string denotes: `fifo:PATH`, or `R,W` with two
/// non-negative descriptors.
pub open spec fn parsed_handoff(s: Seq<char>) -> Result<(Seq<char>, Option<(i32, i32)>), HandoffError> {
    let colon = first_index(s, ':');
    let head = match colon { Some(i) => s.take(i), None => s };
    if head == seq!['f', 'i', 'f', 'o'] {
        match colon {
            Some(i) => Ok((s.skip(i + 1), None)),
            None => Err(HandoffError::MissingFifoPath),
        }
    } else {
        match first_index(s, ',') {
            None => Err(HandoffError::UnknownForm),
            Some(i) => match (parsed_i32(s.take(i)), parsed_i32(s.skip(i + 1))) {
                (None, _) => Err(HandoffError::BadReadFd),
                (Some(_), None) => Err(HandoffError::BadWriteFd),
                (Some(r), Some(w)) => if r < 0 {
                    Err(HandoffError::NegativeFd(r))
                } else if w < 0 {
                    Err(HandoffError::NegativeFd(w))
                } else {
                    Ok((Seq::empty(), Some((r, w))))
                },
            },
        }
    }
}

/// Reads a handoff string: `fifo:PATH` or `R,W`.
pub fn parse_handoff(s: &str) -> (r: Result<CreationArg, HandoffError>)
    ensures
        match parsed_handoff(s@) {
            Ok((path, None)) => r matches Ok(CreationArg::Fifo(p)) && p@ == path,
            Ok((_, Some((rd, wr)))) => r matches Ok(CreationArg::Fds { read, write }) && read == rd && write == wr,
            Err(e) => r == Err::<CreationArg, HandoffError>(e),
        },
{
    let cs = chars_of(s);
    let colon = find_char(&cs, ':');
    let head_end: usize = match colon { Some(i) => i, None => cs.len() };
    let ghost head = match first_index(s@, ':') { Some(i) => s@.take(i), None => s@ };
    proof {
        match colon {
            Some(i) => {
                assert(first_index(s@, ':') == Some(i as int));
                assert(head =~= cs@.subrange(0, head_end as int));
            },
            None => {
                assert(first_index(s@, ':') is None);
                assert(head =~= cs@.subrange(0, head_end as int));
            },
        }
    }
    let is_fifo = head_end == 4 && cs[0] == 'f' && cs[1] == 'i' && cs[2] == 'f' && cs[3] == 'o';
    assert(is_fifo == (head == seq!['f', 'i', 'f', 'o'])) by {
        if head == seq!['f', 'i', 'f', 'o'] {
            assert(head.len() == 4);
            assert(head[0] == 'f' && head[1] == 'i' && head[2] == 'f' && head[3] == 'o');
        }
        if is_fifo {
            assert(head =~= seq!['f', 'i', 'f', 'o']);
        }
    }
    if is_fifo {
        match colon {
            Some(i) => {
                let mut path = String::new();
                let mut k: usize = i + 1;
                while k < cs.len()
                    invariant
                        i + 1 <= k <= cs@.len(),
                        path@ == cs@.subrange(i + 1, k as int),
                    decreases cs.len() - k,
                {
                    push_char(&mut path, cs[k]);
                    k = k + 1;
                    assert(path@ =~= cs@.subrange(i + 1, k as int));
                }
                assert(path@ =~= s@.skip(i + 1));
                return Ok(CreationArg::Fifo(path));
            },
            None => return Err(HandoffError::MissingFifoPath),
        }
    }
    match find_char(&cs, ',') {
        None => Err(HandoffError::UnknownForm),
        Some(i) => {
            assert(cs@.subrange(0, i as int) =~= s@.take(i as int));
            assert(cs@.subrange(i + 1, cs@.len() as int) =~= s@.skip(i + 1));
            match parse_i32(&cs, 0, i) {
                None => Err(HandoffError::BadReadFd),
                Some(read) => match parse_i32(&cs, i + 1, cs.len()) {
                    None => Err(HandoffError::BadWriteFd),
                    Some(write) => {
                        if read < 0 {
                            Err(HandoffError::NegativeFd(read))
                        } else if write < 0 {
                            Err(HandoffError::NegativeFd(write))
                        } else {
                            Ok(CreationArg::Fds { read, write })
                        }
                    },
                },
            }
        },
    }
}

/// A client of one token pool.
#[derive(Debug)]
pub struct Client {
    store: TokenQueue,
    creation_arg: CreationArg,
    mode: BlockingMode,
}

impl Client {
    /// The tokens queued in the pool, front first.
    pub closed spec fn tokens(&self) -> Seq<u8> {
        self.store@
    }

    /// The pool's blocking mode.
    pub closed spec fn blocking_mode(&self) -> BlockingMode {
        self.mode
    }

    /// How the pool was reached.
    pub closed spec fn creation(&self) -> CreationArg {
        self.creation_arg
    }

    /// A new pool of `limit` tokens, reached through descriptor `fd` for
    /// both reading and writing. It starts in blocking mode.
    pub fn new(limit: usize, fd: i32) -> (c: Client)
        ensures
            c.tokens() == fresh_pool(limit as nat),
            c.blocking_mode() == BlockingMode::Blocking,
            c.creation() == (CreationArg::Fds { read: fd, write: fd }),
    {
        let mut store = TokenQueue::new();
        let mut left: usize = limit;
        while left > 0
            invariant
                left <= limit,
                store@ == fresh_pool((limit - left) as nat),
            decreases left,
        {
            let n: usize = if left < 128 { left } else { 128 };
            let chunk: Vec<u8> = vec![FILL_BYTE; n];
            store.write_all(chunk.as_slice());
            left = left - n;
            assert(store@ =~= fresh_pool((limit - left) as nat));
        }
        Client { store, creation_arg: CreationArg::Fds { read: fd, write: fd }, mode: BlockingMode::Blocking }
    }

    /// A client of an existing pool whose queued tokens are `store`.
    pub fn from_parts(store: TokenQueue, creation_arg: CreationArg, mode: BlockingMode) -> (c: Client)
        ensures
            c.tokens() == store@,
            c.blocking_mode() == mode,
            c.creation() == creation_arg,
    {
        Client { store, creation_arg, mode }
    }

    /// Takes the pool's tokens as they now stand in its backing store, which
    /// other clients of the same pool may have changed.
    pub fn replace_tokens(&mut self, contents: Vec<u8>)
        ensures
            final(self).tokens() == contents@,
            final(self).blocking_mode() == old(self).blocking_mode(),
            final(self).creation() == old(self).creation(),
    {
        self.store = TokenQueue::from_bytes(contents);
    }

    /// Whether `try_acquire` can be used on this pool.
    pub fn can_try_acquire(&self) -> (r: bool)
        ensures
            r == (self.blocking_mode() != BlockingMode::Shared),
    {
        self.mode != BlockingMode::Shared
    }

    /// The queued tokens, front first.
    pub fn store_contents(&self) -> (r: &[u8])
        ensures
            r@ == self.tokens(),
    {
        self.store.contents()
    }

    fn take_token(&mut self) -> (r: Option<Acquired>)
        ensures
            r matches Some(a) ==> taken(old(self).tokens()) == Some(a.byte),
            r is None ==> taken(old(self).tokens()) is None,
            final(self).tokens() == after_take(old(self).tokens()),
            final(self).blocking_mode() == old(self).blocking_mode(),
            final(self).creation() == old(self).creation(),
    {
        let got = self.store.read(1);
        if got.len() == 1 {
            assert(got@[0] == old(self).tokens()[0]);
            assert(self.store@ =~= old(self).tokens().drop_first());
            Some(Acquired { byte: got[0] })
        } else {
            assert(self.store@ =~= old(self).tokens());
            None
        }
    }

    /// One attempt of a blocking acquisition: takes the front token if there
    /// is one. `None` means that the caller waits until the pool is written
    /// to, then tries again.
    pub fn poll_acquire(&mut self) -> (r: Option<Acquired>)
        ensures
            r matches Some(a) ==> taken(old(self).tokens()) == Some(a.byte),
            r is None ==> taken(old(self).tokens()) is None,
            final(self).tokens() == after_take(old(self).tokens()),
            final(self).blocking_mode() == old(self).blocking_mode(),
            final(self).creation() == old(self).creation(),
    {
        self.take_token()
    }

    /// Takes a token without waiting: `None` when the pool is empty. This
    /// switches the pool to non-blocking reads for good; a pool shared with
    /// an outside peer refuses it.
    pub fn try_acquire(&mut self) -> (r: Result<Option<Acquired>, JobserverError>)
        ensures
            old(self).blocking_mode() == BlockingMode::Shared ==> {
                &&& r == Err::<Option<Acquired>, JobserverError>(JobserverError::Unsupported)
                &&& final(self).tokens() == old(self).tokens()
                &&& final(self).blocking_mode() == BlockingMode::Shared
            },
            old(self).blocking_mode() != BlockingMode::Shared ==> {
                &&& r matches Ok(Some(a)) ==> taken(old(self).tokens()) == Some(a.byte)
                &&& r matches Ok(None) ==> taken(old(self).tokens()) is None
                &&& r is Ok
                &&& final(self).tokens() == after_take(old(self).tokens())
                &&& final(self).blocking_mode() == BlockingMode::NonBlocking
            },
            mode_follows(old(self).blocking_mode(), final(self).blocking_mode()),
            final(self).creation() == old(self).creation(),
    {
        if self.mode == BlockingMode::Shared {
            return Err(JobserverError::Unsupported);
        }
        self.mode = BlockingMode::NonBlocking;
        Ok(self.take_token())
    }

    /// Puts one token back: the byte of `data`, or the default byte.
    pub fn release(&mut self, data: Option<&Acquired>)
        ensures
            final(self).tokens() == old(self).tokens().push(release_byte(
                match data { Some(a) => Some(a.byte), None => None },
            )),
            final(self).blocking_mode() == old(self).blocking_mode(),
            final(self).creation() == old(self).creation(),
    {
        let byte: u8 = match data {
            Some(a) => a.byte,
            None => DEFAULT_RELEASE_BYTE,
        };
        let one: [u8; 1] = [byte];
        self.store.write_all(&one);
        assert(one@ =~= seq![byte]);
        assert(self.store@ =~= old(self).tokens().push(byte));
    }

    /// The number of queued tokens.
    pub fn available(&self) -> (n: usize)
        ensures
            n == self.tokens().len(),
    {
        self.store.available()
    }

    /// The handoff string that gives a child process the same pool.
    pub fn string_arg(&self) -> (r: String)
        ensures
            r@ == handoff_text(self.creation()),
    {
        let mut r = String::new();
        match &self.creation_arg {
            CreationArg::Fifo(path) => {
                push_char(&mut r, 'f');
                push_char(&mut r, 'i');
                push_char(&mut r, 'f');
                push_char(&mut r, 'o');
                push_char(&mut r, ':');
                push_str(&mut r, path.as_str());
                assert(r@ =~= handoff_text(self.creation()));
            },
            CreationArg::Fds { read, write } => {
                push_int_text(&mut r, *read);
                push_char(&mut r, ',');
                push_int_text(&mut r, *write);
                assert(r@ =~= handoff_text(self.creation()));
            },
        }
        r
    }
}

/// What a check of one inherited descriptor found.
#[derive(PartialEq, Eq, Structural, Clone, Copy, Debug)]
pub enum FdStatus {
    /// Open, and a pipe where that was asked for.
    Usable,
    /// Open, but not a pipe.
    NotAPipe,
    /// Not open.
    CannotOpen,
}

/// Which descriptor of a pair to report.
#[derive(PartialEq, Eq, Structural, Clone, Copy, Debug)]
pub enum FdVerdict {
    /// Both are usable.
    Usable,
    /// Report the read descriptor's failure.
    ReadFails,
    /// Report the write descriptor's failure.
    WriteFails,
}

/// Which failure of a read/write descriptor pair to report: not being a
/// pipe is the worse one and wins, then the read side before the write side.
pub fn fd_pair_verdict(read: FdStatus, write: FdStatus) -> (v: FdVerdict)
    ensures
        read == FdStatus::NotAPipe ==> v == FdVerdict::ReadFails,
        read != FdStatus::NotAPipe && write == FdStatus::NotAPipe ==> v == FdVerdict::WriteFails,
        read == FdStatus::CannotOpen && write != FdStatus::NotAPipe ==> v == FdVerdict::ReadFails,
        read == FdStatus::Usable && write == FdStatus::CannotOpen ==> v == FdVerdict::WriteFails,
        read == FdStatus::Usable && write == FdStatus::Usable ==> v == FdVerdict::Usable,
{
    if read == FdStatus::NotAPipe {
        FdVerdict::ReadFails
    } else if write == FdStatus::NotAPipe {
        FdVerdict::WriteFails
    } else if read == FdStatus::CannotOpen {
        FdVerdict::ReadFails
    } else if write == FdStatus::CannotOpen {
        FdVerdict::WriteFails
    } else {
        FdVerdict::Usable
    }
}

/// What the check of one inherited descriptor found. With `check_pipe`,
/// `stat_mode` is the file mode that `fstat` gave, if it succeeded; a
/// descriptor that `fstat` cannot read is not a pipe where it is still open.
/// Without `check_pipe`, only being open counts.
pub fn fd_status(check_pipe: bool, stat_mode: Option<u32>, fifo_bits: u32, descriptor_open: bool) -> (s: FdStatus)
    ensures
        !check_pipe ==> s == (if descriptor_open { FdStatus::Usable } else { FdStatus::CannotOpen }),
        check_pipe && stat_mode is None ==> s == (if descriptor_open { FdStatus::NotAPipe } else { FdStatus::CannotOpen }),
        check_pipe && stat_mode is Some ==> s == (if stat_mode->Some_0 & fifo_bits == fifo_bits {
            FdStatus::Usable
        } else {
            FdStatus::NotAPipe
        }),
{
    if !check_pipe {
        if descriptor_open { FdStatus::Usable } else { FdStatus::CannotOpen }
    } else {
        match stat_mode {
            None => if descriptor_open { FdStatus::NotAPipe } else { FdStatus::CannotOpen },
            Some(m) => if is_fifo_mode(m, fifo_bits) { FdStatus::Usable } else { FdStatus::NotAPipe },
        }
    }
}

/// The blocking mode of a pool reached by a handoff string: a named fifo is
/// opened anew by this process and can go non-blocking; inherited
/// descriptors are shared with the peer and cannot.
pub fn handoff_mode(arg: &CreationArg) -> (m: BlockingMode)
    ensures
        arg is Fifo ==> m == BlockingMode::Blocking,
        arg is Fds ==> m == BlockingMode::Shared,
{
    match arg {
        CreationArg::Fifo(_) => BlockingMode::Blocking,
        CreationArg::Fds { .. } => BlockingMode::Shared,
    }
}

/// Whether a file mode has all the bits of the FIFO file type.
pub fn is_fifo_mode(mode: u32, fifo_bits: u32) -> (r: bool)
    ensures
        r == (mode & fifo_bits == fifo_bits),
{
    mode & fifo_bits == fifo_bits
}

/// The descriptor flags after setting or clearing `flag` in `previous`;
/// `None` where they do not change, so that nothing needs writing.
pub fn flag_update(previous: i32, flag: i32, set: bool) -> (r: Option<i32>)
    ensures
        ({
            let new = if set { previous | flag } else { previous & !flag };
            &&& new == previous ==> r is None
            &&& new != previous ==> r == Some(new)
        }),
{
    let new = if set { previous | flag } else { previous & !flag };
    if new != previous { Some(new) } else { None }
}

/// `k` tokens taken one after another from `q`.
pub open spec fn take_n(q: Seq<u8>, k: nat) -> Seq<u8>
    decreases k,
{
    if k == 0 { q } else { after_take(take_n(q, (k - 1) as nat)) }
}

/// `k` default tokens released one after another into `q`.
pub open spec fn release_n(q: Seq<u8>, k: nat) -> Seq<u8>
    decreases k,
{
    if k == 0 { q } else { release_n(q, (k - 1) as nat).push(release_byte(None)) }
}

proof fn lemma_take_n(q: Seq<u8>, k: nat)
    requires
        k <= q.len(),
    ensures
        take_n(q, k) == q.skip(k as int),
    decreases k,
{
    if k > 0 {
        lemma_take_n(q, (k - 1) as nat);
        assert(q.skip(k - 1).drop_first() =~= q.skip(k as int));
    } else {
        assert(q.skip(0) =~= q);
    }
}

proof fn lemma_release_n_len(q: Seq<u8>, k: nat)
    ensures
        release_n(q, k).len() == q.len() + k,
    decreases k,
{
    if k > 0 {
        lemma_release_n_len(q, (k - 1) as nat);
    }
}

/// A fresh pool of `limit` tokens grants exactly `limit` acquisitions before
/// a non-blocking one finds it empty; after `limit` releases it grants
/// exactly `limit` again.
pub proof fn lemma_fresh_pool_grants_limit(limit: nat)
    ensures
        forall|k: nat| k < limit ==> (#[trigger] taken(take_n(fresh_pool(limit), k))) is Some,
        taken(take_n(fresh_pool(limit), limit)) is None,
        forall|k: nat| k < limit ==>
            (#[trigger] taken(take_n(release_n(take_n(fresh_pool(limit), limit), limit), k))) is Some,
        taken(take_n(release_n(take_n(fresh_pool(limit), limit), limit), limit)) is None,
{
    let q = fresh_pool(limit);
    assert forall|k: nat| k < limit implies (#[trigger] taken(take_n(q, k))) is Some by {
        lemma_take_n(q, k);
    }
    lemma_take_n(q, limit);
    let e = take_n(q, limit);
    assert(e.len() == 0);
    let r = release_n(e, limit);
    lemma_release_n_len(e, limit);
    assert forall|k: nat| k < limit implies (#[trigger] taken(take_n(r, k))) is Some by {
        lemma_take_n(r, k);
    }
    lemma_take_n(r, limit);
}

/// One operation on a pool, as seen by its users.
pub enum PoolOp {
    /// An acquisition that takes a token if one is queued.
    Acquire,
    /// A release of a token, with its byte or the default one.
    Release(Option<u8>),
}

/// The queue and the number of tokens held after one operation.
pub open spec fn pool_step(q: Seq<u8>, held: nat, op: PoolOp) -> (Seq<u8>, nat) {
    match op {
        PoolOp::Acquire => if taken(q) is Some { (after_take(q), held + 1) } else { (q, held) },
        PoolOp::Release(b) => (q.push(release_byte(b)), (held - 1) as nat),
    }
}

/// The queue and the number of tokens held after a run of operations.
pub open spec fn pool_run(q: Seq<u8>, held: nat, ops: Seq<PoolOp>) -> (Seq<u8>, nat)
    decreases ops.len(),
{
    if ops.len() == 0 {
        (q, held)
    } else {
        let (q1, h1) = pool_step(q, held, ops[0]);
        pool_run(q1, h1, ops.drop_first())
    }
}

/// Whether every release in `ops` returns a token that is held.
pub open spec fn releases_matched(q: Seq<u8>, held: nat, ops: Seq<PoolOp>) -> bool
    decreases ops.len(),
{
    if ops.len() == 0 {
        true
    } else {
        let (q1, h1) = pool_step(q, held, ops[0]);
        &&& (ops[0] is Release ==> held > 0)
        &&& releases_matched(q1, h1, ops.drop_first())
    }
}

proof fn lemma_pool_run_conserves(q: Seq<u8>, held: nat, ops: Seq<PoolOp>)
    requires
        releases_matched(q, held, ops),
    ensures
        pool_run(q, held, ops).0.len() + pool_run(q, held, ops).1 == q.len() + held,
    decreases ops.len(),
{
    if ops.len() > 0 {
        let (q1, h1) = pool_step(q, held, ops[0]);
        lemma_pool_run_conserves(q1, h1, ops.drop_first());
    }
}

/// Whatever the interleaving of acquisitions and matched releases on a
/// fresh pool of `limit` tokens, the tokens held never exceed `limit`, and
/// held and queued tokens together always make `limit`.
pub proof fn lemma_held_tokens_bounded(limit: nat, ops: Seq<PoolOp>)
    requires
        releases_matched(fresh_pool(limit), 0, ops),
    ensures
        pool_run(fresh_pool(limit), 0, ops).1 <= limit,
        pool_run(fresh_pool(limit), 0, ops).0.len() + pool_run(fresh_pool(limit), 0, ops).1 == limit,
{
    lemma_pool_run_conserves(fresh_pool(limit), 0, ops);
}

} // verus!
