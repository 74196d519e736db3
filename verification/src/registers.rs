//! The registers of a tracee stopped at a system call, and the strings
//! that the tracer reads out of the tracee's memory word by word.

use vstd::prelude::*;

verus! {

/// The code segment of a tracee that runs 32-bit x86 code.
pub const CS_X86: u64 = 0x23;

/// The registers of a stopped tracee that the tracer reads.
#[derive(Debug, Clone, Copy, PartialEq, Eq, Structural)]
pub struct Regs {
    pub cs: u64,
    pub rax: u64,
    pub rbx: u64,
    pub rcx: u64,
    pub rdx: u64,
    pub rsi: u64,
    pub rdi: u64,
    pub rbp: u64,
    pub r8: u64,
    pub r9: u64,
    pub r10: u64,
}

/// The six arguments of the system call, as the calling convention of
/// the tracee places them.
pub open spec fn args_of(r: Regs) -> Seq<usize> {
    if r.cs == CS_X86 {
        seq![r.rbx as usize, r.rcx as usize, r.rdx as usize, r.rsi as usize, r.rdi as usize, r.rbp as usize]
    } else {
        seq![r.rdi as usize, r.rsi as usize, r.rdx as usize, r.r10 as usize, r.r8 as usize, r.r9 as usize]
    }
}

impl Regs {
    /// All registers zero, as when they could not be read.
    pub fn zeroed() -> (r: Regs)
        ensures
            r == (Regs { cs: 0, rax: 0, rbx: 0, rcx: 0, rdx: 0, rsi: 0, rdi: 0, rbp: 0, r8: 0, r9: 0, r10: 0 }),
    {
        Regs { cs: 0, rax: 0, rbx: 0, rcx: 0, rdx: 0, rsi: 0, rdi: 0, rbp: 0, r8: 0, r9: 0, r10: 0 }
    }

    /// The six arguments of the system call.
    pub fn syscall_args(&self) -> (a: [usize; 6])
        ensures
            a@ == args_of(*self),
    {
        let a: [usize; 6] = if self.cs == CS_X86 {
            [
                self.rbx as usize,
                self.rcx as usize,
                self.rdx as usize,
                self.rsi as usize,
                self.rdi as usize,
                self.rbp as usize,
            ]
        } else {
            [
                self.rdi as usize,
                self.rsi as usize,
                self.rdx as usize,
                self.r10 as usize,
                self.r8 as usize,
                self.r9 as usize,
            ]
        };
        assert(a@ =~= args_of(*self));
        a
    }

    /// The value the system call returned.
    pub fn return_value(&self) -> (v: i32)
        ensures
            v == self.rax as i32,
    {
        self.rax as i32
    }
}

/// The index of the first zero byte of `w`, or its length.
pub open spec fn nul_index(w: Seq<u8>) -> nat
    decreases w.len(),
{
    if w.len() == 0 {
        0
    } else if w[0] == 0 {
        0
    } else {
        1 + nul_index(w.drop_first())
    }
}

proof fn lemma_nul_index(w: Seq<u8>, i: int)
    requires
        0 <= i <= w.len(),
        forall|j: int| 0 <= j < i ==> w[j] != 0,
        i == w.len() || w[i] == 0,
    ensures
        nul_index(w) == i,
    decreases i,
{
    if i > 0 {
        let d = w.drop_first();
        assert forall|j: int| 0 <= j < i - 1 implies d[j] != 0 by {
            assert(d[j] == w[j + 1]);
        }
        if i < w.len() {
            assert(d[i - 1] == w[i]);
        }
        lemma_nul_index(d, i - 1);
    }
}

/// The bytes a word adds to a string read out of the tracee hold no zero
/// byte: a string read this way is a valid C string.
pub proof fn law_absorbed_bytes_are_not_nul(word: Seq<u8>)
    ensures
        nul_index(word) <= word.len(),
        forall|i: int| 0 <= i < nul_index(word) ==> #[trigger] word[i] != 0,
    decreases word.len(),
{
    if word.len() > 0 && word[0] != 0 {
        let d = word.drop_first();
        law_absorbed_bytes_are_not_nul(d);
        assert forall|i: int| 0 <= i < nul_index(word) implies #[trigger] word[i] != 0 by {
            if i > 0 {
                assert(word[i] == d[i - 1]);
            }
        }
    }
}

/// A string being read out of the tracee, one machine word at a time.
pub struct TraceeString {
    addr: usize,
    read: usize,
    bytes: Vec<u8>,
    finished: bool,
}

impl TraceeString {
    /// The bytes read so far.
    pub closed spec fn text(&self) -> Seq<u8> {
        self.bytes@
    }

    /// Is the string complete?
    pub closed spec fn is_finished(&self) -> bool {
        self.finished
    }

    /// The address of the string.
    pub closed spec fn start(&self) -> usize {
        self.addr
    }

    /// How many bytes of it have been read.
    pub closed spec fn offset(&self) -> usize {
        self.read
    }

    /// Starts reading the string at `addr`; a null address is the empty string.
    pub fn new(addr: usize) -> (s: TraceeString)
        ensures
            s.text() == Seq::<u8>::empty(),
            s.is_finished() == (addr == 0),
            s.start() == addr,
            s.offset() == 0,
    {
        TraceeString { addr, read: 0, bytes: Vec::new(), finished: addr == 0 }
    }

    /// The address of the next word to read, or `None` when the string
    /// is complete (or the address would pass the end of the address
    /// space).
    pub fn next_addr(&self) -> (r: Option<usize>)
        ensures
            r == if self.is_finished() || self.start() + self.offset() > usize::MAX {
                None
            } else {
                Some((self.start() + self.offset()) as usize)
            },
    {
        if self.finished {
            None
        } else {
            self.addr.checked_add(self.read)
        }
    }

    /// The word could not be read: the string ends here.
    pub fn stop(&mut self)
        ensures
            final(self).is_finished(),
            final(self).text() == old(self).text(),
            final(self).start() == old(self).start(),
            final(self).offset() == old(self).offset(),
    {
        self.finished = true;
    }

    /// Takes in the next word: its bytes up to the first zero belong to
    /// the string, and a zero ends it.
    pub fn absorb(&mut self, word: &[u8])
        ensures
            final(self).text() == old(self).text() + word@.take(nul_index(word@) as int),
            final(self).start() == old(self).start(),
            final(self).is_finished() == (old(self).is_finished() || nul_index(word@) < word@.len()
                || old(self).offset() + word@.len() > usize::MAX),
            final(self).offset() == if final(self).is_finished() {
                old(self).offset() as int
            } else {
                old(self).offset() + word@.len()
            },
    {
        let mut i: usize = 0;
        while i < word.len() && word[i] != 0
            invariant
                i <= word@.len(),
                forall|j: int| 0 <= j < i ==> word@[j] != 0,
                self.bytes@ == old(self).bytes@ + word@.take(i as int),
                self.addr == old(self).addr,
                self.read == old(self).read,
                self.finished == old(self).finished,
            decreases word@.len() - i,
        {
            self.bytes.push(word[i]);
            i = i + 1;
            assert(self.bytes@ =~= old(self).bytes@ + word@.take(i as int));
        }
        proof { lemma_nul_index(word@, i as int); }
        if i < word.len() {
            self.finished = true;
        } else if !self.finished {
            match self.read.checked_add(word.len()) {
                Some(n) => {
                    self.read = n;
                },
                None => {
                    self.finished = true;
                },
            }
        }
    }

    /// The bytes read.
    pub fn text_bytes(&self) -> (r: Vec<u8>)
        ensures
            r@ == self.text(),
    {
        crate::bytes::copy_bytes(self.bytes.as_slice())
    }
}

} // verus!
