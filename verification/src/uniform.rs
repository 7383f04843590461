//! An arena of equally sized uniform blocks inside one buffer.

use crate::gpu::{BufferDescriptor, BufferUsage, BufferWrite};
use crate::pod::{pad_with_zeros, zero_padded, Pod};
use std::marker::PhantomData;
use std::rc::Rc;
use vstd::prelude::*;

verus! {

/// Size of the arena in bytes: the largest range that a uniform binding is
/// sure to span.
pub const DYNAMIC_UNIFORM_BUFFER_SIZE: u64 = 16384;

/// Alignment in bytes that the offset of a uniform binding must have.
pub const DYNAMIC_UNIFORM_BUFFER_ALIGNMENT: usize = 256;

/// Size in bytes of one block of `T`: the size of a value, and one alignment
/// unit at least.
pub open spec fn block_size_of<T: Pod>() -> nat {
    if T::size_spec() > DYNAMIC_UNIFORM_BUFFER_ALIGNMENT {
        T::size_spec()
    } else {
        DYNAMIC_UNIFORM_BUFFER_ALIGNMENT as nat
    }
}

/// `staged` with `bytes` written over it from index `at` on.
pub open spec fn overwritten(staged: Seq<u8>, at: int, bytes: Seq<u8>) -> Seq<u8> {
    Seq::new(
        staged.len(),
        |i: int|
            if at <= i < at + bytes.len() {
                bytes[i - at]
            } else {
                staged[i]
            },
    )
}

/// The sizes of `n` blocks of `T`, added up.
pub open spec fn sum_of_block_sizes<T: Pod>(n: nat) -> nat
    decreases n,
{
    if n == 0 {
        0
    } else {
        sum_of_block_sizes::<T>((n - 1) as nat) + block_size_of::<T>()
    }
}

/// Why an arena could not be cleared.
#[derive(Clone, Copy, Debug, PartialEq, Eq)]
pub enum ClearError {
    /// A block allocated since the arena was last cleared is still held.
    OutstandingBlocks,
}

impl ClearError {
    /// The error in words.
    pub fn message(&self) -> (s: String)
        ensures
            s@ == "Can't clear uniform buffer: there are outstanding references to allocated blocks."@,
    {
        "Can't clear uniform buffer: there are outstanding references to allocated blocks.".to_string()
    }
}

/// Another holder of the liveness token.
///
/// Calls `Rc::clone`, which hands out one more pointer to the same
/// allocation: what it points to is what `token` points to. How many
/// pointers there are is not part of the value, and nothing is claimed
/// of it.
#[verifier::external_body]
fn share_token(token: &Rc<()>) -> (shared: Rc<()>)
    ensures
        shared == *token,
{
    Rc::clone(token)
}

/// An address into a dynamic uniform buffer: the claim on one block of it.
///
/// While a block is held, the arena it came from cannot be cleared.
#[derive(Debug)]
pub struct DynamicUniformBufferBlock<T: Pod> {
    token: Rc<()>,
    _phantom: PhantomData<T>,
    addr: u64,
}

impl<T: Pod> DynamicUniformBufferBlock<T> {
    /// The block lies inside the arena, a whole number of blocks from its
    /// start, and blocks start on alignment units.
    #[verifier::type_invariant]
    pub open spec fn wf(&self) -> bool {
        &&& self.addr() % block_size_of::<T>() == 0
        &&& self.addr() + block_size_of::<T>() <= DYNAMIC_UNIFORM_BUFFER_SIZE
        &&& T::align_spec() % (DYNAMIC_UNIFORM_BUFFER_ALIGNMENT as nat) == 0
    }

    /// Where the block starts, in bytes from the start of the arena.
    pub closed spec fn addr(&self) -> nat {
        self.addr as nat
    }

    /// The offset to bind the buffer with, so that a shader sees this block:
    /// a whole number of alignment units.
    pub fn offset(&self) -> (offset: u32)
        ensures
            offset == self.addr(),
            offset % (DYNAMIC_UNIFORM_BUFFER_ALIGNMENT as u32) == 0,
    {
        proof {
            use_type_invariant(self);
            lemma_block_is_aligned(*self);
        }
        self.addr as u32
    }
}

/// A buffer from which equally sized blocks are handed out one after another,
/// with a copy of its contents on the host.
///
/// `T` is what a block holds; `B` is the caller's handle to the buffer on the
/// device, which the arena only keeps.
pub struct DynamicUniformBuffer<T: Pod, B> {
    // shared with every block handed out since the last clear
    token: Rc<()>,
    _phantom: PhantomData<T>,
    inner: B,
    allocated: u64,
    update_buf: Vec<u8>,
}

impl<T: Pod, B> DynamicUniformBuffer<T, B> {
    /// The staged copy spans the arena, the cursor stands a whole number of
    /// blocks into it, and blocks start on alignment units.
    #[verifier::type_invariant]
    pub open spec fn wf(&self) -> bool {
        &&& self.staged().len() == DYNAMIC_UNIFORM_BUFFER_SIZE
        &&& self.allocated() <= DYNAMIC_UNIFORM_BUFFER_SIZE
        &&& self.allocated() % block_size_of::<T>() == 0
        &&& T::align_spec() % (DYNAMIC_UNIFORM_BUFFER_ALIGNMENT as nat) == 0
    }

    /// The bytes handed out so far: where the next block will start.
    pub closed spec fn allocated(&self) -> nat {
        self.allocated as nat
    }

    /// The number of blocks handed out since the arena was made or last
    /// cleared.
    pub open spec fn blocks(&self) -> nat {
        self.allocated() / block_size_of::<T>()
    }

    /// The host's copy of the buffer, as the next flush will send it.
    pub closed spec fn staged(&self) -> Seq<u8> {
        self.update_buf@
    }

    /// The handle to the buffer on the device.
    pub closed spec fn inner(&self) -> B {
        self.inner
    }

    /// The buffer that an arena needs on the device.
    pub fn buffer_descriptor() -> (desc: BufferDescriptor)
        ensures
            desc.label@ == "dynamic uniform buffer"@,
            desc.size == DYNAMIC_UNIFORM_BUFFER_SIZE,
            desc.usage == (BufferUsage { uniform: true, copy_dst: true }),
            !desc.mapped_at_creation,
    {
        BufferDescriptor {
            label: "dynamic uniform buffer",
            size: DYNAMIC_UNIFORM_BUFFER_SIZE,
            usage: BufferUsage::uniform_copy_dst(),
            mapped_at_creation: false,
        }
    }

    /// An empty arena over the buffer `inner`, with nothing but zeros staged.
    ///
    /// The alignment of `T` has to be a whole number of alignment units.
    pub fn new(inner: B) -> (buffer: Self)
        requires
            T::align_spec() % (DYNAMIC_UNIFORM_BUFFER_ALIGNMENT as nat) == 0,
        ensures
            buffer.wf(),
            buffer.allocated() == 0,
            buffer.staged() == Seq::new(DYNAMIC_UNIFORM_BUFFER_SIZE as nat, |i: int| 0u8),
            buffer.inner() == inner,
    {
        let mut update_buf: Vec<u8> = Vec::new();
        while update_buf.len() < DYNAMIC_UNIFORM_BUFFER_SIZE as usize
            invariant
                update_buf@.len() <= DYNAMIC_UNIFORM_BUFFER_SIZE,
                update_buf@ == Seq::new(update_buf@.len(), |i: int| 0u8),
            decreases DYNAMIC_UNIFORM_BUFFER_SIZE - update_buf@.len(),
        {
            update_buf.push(0u8);
        }
        DynamicUniformBuffer {
            token: Rc::new(()),
            _phantom: PhantomData,
            inner,
            allocated: 0,
            update_buf,
        }
    }

    /// The size of one block in bytes: a whole number of alignment units,
    /// one at least, and room enough for a value.
    pub fn block_size(&self) -> (size: u64)
        ensures
            size == block_size_of::<T>(),
            size >= DYNAMIC_UNIFORM_BUFFER_ALIGNMENT,
            size >= T::size_spec(),
            size % (DYNAMIC_UNIFORM_BUFFER_ALIGNMENT as u64) == 0,
    {
        proof {
            use_type_invariant(self);
            lemma_block_size::<T>();
        }
        let size: usize = T::size();
        if size > DYNAMIC_UNIFORM_BUFFER_ALIGNMENT {
            size as u64
        } else {
            DYNAMIC_UNIFORM_BUFFER_ALIGNMENT as u64
        }
    }

    /// Whether there is room for one more block.
    pub fn can_allocate(&self) -> (room: bool)
        ensures
            room == (self.allocated() + block_size_of::<T>() <= DYNAMIC_UNIFORM_BUFFER_SIZE),
    {
        proof {
            use_type_invariant(self);
        }
        let size: u64 = self.block_size();
        size <= DYNAMIC_UNIFORM_BUFFER_SIZE && self.allocated <= DYNAMIC_UNIFORM_BUFFER_SIZE - size
    }

    /// Allocates the next block of the arena and stages `val` in it.
    ///
    /// The block starts where the blocks handed out before it end. There has
    /// to be room for it: an arena does not grow.
    #[must_use]
    pub fn allocate(&mut self, val: T) -> (block: DynamicUniformBufferBlock<T>)
        requires
            old(self).allocated() + block_size_of::<T>() <= DYNAMIC_UNIFORM_BUFFER_SIZE,
        ensures
            block.wf(),
            block.addr() == old(self).allocated(),
            block.addr() == sum_of_block_sizes::<T>(old(self).blocks()),
            final(self).allocated() == old(self).allocated() + block_size_of::<T>(),
            final(self).blocks() == old(self).blocks() + 1,
            final(self).staged() == overwritten(
                old(self).staged(),
                old(self).allocated() as int,
                val.bytes(),
            ),
            final(self).inner() == old(self).inner(),
    {
        proof {
            use_type_invariant(&*self);
            lemma_whole_blocks(old(self).allocated(), block_size_of::<T>());
            lemma_sum_of_block_sizes::<T>(old(self).blocks());
        }
        let addr: u64 = self.allocated;
        let size: u64 = self.block_size();
        self.allocated = addr + size;
        let block = DynamicUniformBufferBlock {
            token: share_token(&self.token),
            _phantom: PhantomData,
            addr,
        };
        self.write_block(&block, val);
        block
    }

    /// Stages `val` in place of what `block` held. The buffer on the device
    /// keeps its contents until the next flush.
    pub fn write_block(&mut self, block: &DynamicUniformBufferBlock<T>, val: T)
        ensures
            final(self).staged() == overwritten(
                old(self).staged(),
                block.addr() as int,
                val.bytes(),
            ),
            final(self).allocated() == old(self).allocated(),
            final(self).inner() == old(self).inner(),
    {
        proof {
            use_type_invariant(&*self);
            use_type_invariant(block);
            val.lemma_bytes_len();
        }
        let start: usize = block.addr as usize;
        let bytes = val.to_bytes();
        let mut i: usize = 0;
        while i < bytes.len()
            invariant
                i <= bytes@.len(),
                start + bytes@.len() <= DYNAMIC_UNIFORM_BUFFER_SIZE,
                self.update_buf@.len() == DYNAMIC_UNIFORM_BUFFER_SIZE,
                self.allocated == old(self).allocated,
                self.inner == old(self).inner,
                self.update_buf@ == overwritten(
                    old(self).staged(),
                    start as int,
                    bytes@.subrange(0, i as int),
                ),
                self.wf(),
            decreases bytes@.len() - i,
        {
            self.update_buf[start + i] = bytes[i];
            i += 1;
        }
        assert(bytes@.subrange(0, bytes@.len() as int) == bytes@);
    }

    /// Removes all allocations, so that the next block starts the arena anew.
    ///
    /// Fails, and changes nothing, while a block allocated since the arena
    /// was made or last cleared is still held. An arena that has handed out
    /// no block since then has none to wait for, and is cleared.
    pub fn clear(&mut self) -> (cleared: Result<(), ClearError>)
        ensures
            final(self).staged() == old(self).staged(),
            final(self).inner() == old(self).inner(),
            old(self).blocks() == 0 ==> cleared is Ok,
            match cleared {
                Ok(()) => final(self).allocated() == 0,
                Err(e) => e == ClearError::OutstandingBlocks && final(self).allocated() == old(
                    self,
                ).allocated(),
            },
    {
        proof {
            use_type_invariant(&*self);
            let size = block_size_of::<T>();
            let blocks = old(self).blocks();
            lemma_whole_blocks(old(self).allocated(), size);
            assert(blocks == 0 ==> blocks * size == 0) by (nonlinear_arith);
        }
        if self.allocated == 0 {
            // the token has been shared with no block
            return Ok(());
        }
        let mut out = Rc::new(());
        core::mem::swap(&mut self.token, &mut out);
        self.settle_clear(Rc::try_unwrap(out))
    }

    /// Ends a clear, given what became of the attempt to take the old token
    /// back: the cursor returns to the start if the arena was its only
    /// holder; otherwise the old token is put back and nothing changes.
    fn settle_clear(&mut self, reclaimed: Result<(), Rc<()>>) -> (cleared: Result<(), ClearError>)
        ensures
            final(self).staged() == old(self).staged(),
            final(self).inner() == old(self).inner(),
            reclaimed is Ok ==> cleared == Ok::<(), ClearError>(()) && final(self).allocated() == 0,
            reclaimed is Err ==> cleared == Err::<(), ClearError>(ClearError::OutstandingBlocks)
                && final(self).allocated() == old(self).allocated(),
    {
        proof {
            use_type_invariant(&*self);
        }
        match reclaimed {
            Ok(()) => {
                self.allocated = 0;
                Ok(())
            },
            Err(token) => {
                self.token = token;
                Err(ClearError::OutstandingBlocks)
            },
        }
    }

    /// The transfer that brings the buffer on the device up to date: the
    /// whole staged copy, in one write from the start of the buffer.
    pub fn flush(&self) -> (write: BufferWrite<'_, B>)
        ensures
            *write.buffer == self.inner(),
            write.offset == 0,
            write.data@ == self.staged(),
            write.data@.len() == DYNAMIC_UNIFORM_BUFFER_SIZE,
    {
        proof {
            use_type_invariant(self);
        }
        BufferWrite { buffer: &self.inner, offset: 0, data: self.update_buf.clone() }
    }

    /// The handle to the buffer on the device.
    pub fn buffer(&self) -> (inner: &B)
        ensures
            *inner == self.inner(),
    {
        &self.inner
    }
}

/// `len` rounded up to a whole number of alignment units.
pub open spec fn padded_len(len: nat) -> nat {
    let unit = DYNAMIC_UNIFORM_BUFFER_ALIGNMENT as nat;
    if len % unit == 0 {
        len
    } else {
        (len - len % unit + unit) as nat
    }
}

/// A uniform block given by its bytes: `N` bytes of payload, which the
/// encoding pads with zeros to a whole number of alignment units. It is
/// aligned to one unit, so that an arena takes it.
///
/// A payload so long that its padded length would overflow a machine word is
/// not padded and has alignment 1.
#[derive(Clone, Copy, Debug)]
pub struct UniformBytes<const N: usize> {
    pub data: [u8; N],
}

impl<const N: usize> UniformBytes<N> {
    /// Whether the padded length of an `N`-byte payload fits a machine word.
    pub open spec fn paddable() -> bool {
        padded_len(N as nat) <= usize::MAX
    }
}

impl<const N: usize> Pod for UniformBytes<N> {
    open spec fn size_spec() -> nat {
        if Self::paddable() {
            padded_len(N as nat)
        } else {
            N as nat
        }
    }

    open spec fn align_spec() -> nat {
        if Self::paddable() {
            DYNAMIC_UNIFORM_BUFFER_ALIGNMENT as nat
        } else {
            1
        }
    }

    open spec fn bytes(&self) -> Seq<u8> {
        zero_padded(self.data@, Self::size_spec())
    }

    proof fn lemma_layout() {
        let len = N as int;
        if Self::paddable() && len % 256 != 0 {
            assert((len - len % 256 + 256) % 256 == 0);
        }
    }

    proof fn lemma_bytes_len(&self) {
    }

    fn size() -> (n: usize) {
        let rest: usize = N % DYNAMIC_UNIFORM_BUFFER_ALIGNMENT;
        if rest == 0 {
            N
        } else if N - rest <= usize::MAX - DYNAMIC_UNIFORM_BUFFER_ALIGNMENT {
            N - rest + DYNAMIC_UNIFORM_BUFFER_ALIGNMENT
        } else {
            N
        }
    }

    fn align() -> (n: usize) {
        let rest: usize = N % DYNAMIC_UNIFORM_BUFFER_ALIGNMENT;
        if rest == 0 || N - rest <= usize::MAX - DYNAMIC_UNIFORM_BUFFER_ALIGNMENT {
            DYNAMIC_UNIFORM_BUFFER_ALIGNMENT
        } else {
            1
        }
    }

    fn to_bytes(&self) -> (b: Vec<u8>) {
        let mut b: Vec<u8> = Vec::new();
        let mut i: usize = 0;
        while i < N
            invariant
                i <= N,
                b@ == self.data@.subrange(0, i as int),
            decreases N - i,
        {
            b.push(self.data[i]);
            i += 1;
        }
        assert(b@ == self.data@);
        pad_with_zeros(&mut b, Self::size());
        b
    }
}

/// The encoding loses nothing: blocks with the same bytes are the same.
pub proof fn lemma_uniform_bytes_round_trip<const N: usize>(a: UniformBytes<N>, b: UniformBytes<N>)
    requires
        a.bytes() == b.bytes(),
    ensures
        a == b,
{
    assert forall|i: int| 0 <= i < N implies a.data[i] == b.data[i] by {
        assert(a.bytes()[i] == a.data@[i]);
        assert(b.bytes()[i] == b.data@[i]);
    }
    assert(a.data =~= b.data);
}

/// The sizes of `n` blocks add up to `n` times the size of one.
pub proof fn lemma_sum_of_block_sizes<T: Pod>(n: nat)
    ensures
        sum_of_block_sizes::<T>(n) == n * block_size_of::<T>(),
    decreases n,
{
    let size = block_size_of::<T>();
    if n == 0 {
        assert(n * size == 0) by (nonlinear_arith)
            requires
                n == 0,
        ;
    } else {
        let m = (n - 1) as nat;
        lemma_sum_of_block_sizes::<T>(m);
        assert(m * size + size == n * size) by (nonlinear_arith)
            requires
                m + 1 == n,
        ;
    }
}

/// A cursor that stands a whole number of blocks into the arena stands one
/// more block into it after the next block, and is the product of that number
/// and the block size.
proof fn lemma_whole_blocks(allocated: nat, block_size: nat)
    requires
        block_size > 0,
        allocated % block_size == 0,
    ensures
        allocated == (allocated / block_size) * block_size,
        (allocated + block_size) % block_size == 0,
        (allocated + block_size) / block_size == allocated / block_size + 1,
{
    vstd::arithmetic::div_mod::lemma_fundamental_div_mod(allocated as int, block_size as int);
    vstd::arithmetic::div_mod::lemma_mod_add_multiples_vanish(allocated as int, block_size as int);
    vstd::arithmetic::div_mod::lemma_div_plus_one(allocated as int, block_size as int);
    assert((allocated / block_size) * block_size == block_size * (allocated / block_size))
        by (nonlinear_arith);
}

/// Where the alignment of `T` is a whole number of alignment units, so is the
/// size of a block of `T`; it is one unit at least, and no less than a value.
pub proof fn lemma_block_size<T: Pod>()
    requires
        T::align_spec() % (DYNAMIC_UNIFORM_BUFFER_ALIGNMENT as nat) == 0,
    ensures
        block_size_of::<T>() >= DYNAMIC_UNIFORM_BUFFER_ALIGNMENT,
        block_size_of::<T>() >= T::size_spec(),
        block_size_of::<T>() % (DYNAMIC_UNIFORM_BUFFER_ALIGNMENT as nat) == 0,
{
    T::lemma_layout();
    let size = T::size_spec() as int;
    let align = T::align_spec() as int;
    vstd::arithmetic::div_mod::lemma_fundamental_div_mod(size, align);
    vstd::arithmetic::div_mod::lemma_fundamental_div_mod(align, 256);
    assert(size == 256 * ((align / 256) * (size / align))) by (nonlinear_arith)
        requires
            size == align * (size / align),
            align == 256 * (align / 256),
    ;
    vstd::arithmetic::div_mod::lemma_mod_multiples_basic((align / 256) * (size / align), 256);
}

/// What is written at an index can be read back from there.
pub proof fn lemma_write_then_read(staged: Seq<u8>, at: int, bytes: Seq<u8>)
    requires
        0 <= at,
        at + bytes.len() <= staged.len(),
    ensures
        overwritten(staged, at, bytes).subrange(at, at + bytes.len()) == bytes,
{
}

/// A write changes nothing outside the range it covers.
pub proof fn lemma_write_leaves_rest(staged: Seq<u8>, at: int, bytes: Seq<u8>, i: int)
    requires
        0 <= i < staged.len(),
        !(at <= i < at + bytes.len()),
    ensures
        overwritten(staged, at, bytes)[i] == staged[i],
{
}

/// Of two writes of equal length at one index, only the second can be seen.
pub proof fn lemma_last_write_wins(staged: Seq<u8>, at: int, first: Seq<u8>, second: Seq<u8>)
    requires
        first.len() == second.len(),
    ensures
        overwritten(overwritten(staged, at, first), at, second) == overwritten(staged, at, second),
{
}

/// A block starts a whole number of alignment units into the arena.
pub proof fn lemma_block_is_aligned<T: Pod>(block: DynamicUniformBufferBlock<T>)
    requires
        block.wf(),
    ensures
        block.addr() % (DYNAMIC_UNIFORM_BUFFER_ALIGNMENT as nat) == 0,
{
    lemma_block_size::<T>();
    let size = block_size_of::<T>() as int;
    let addr = block.addr() as int;
    vstd::arithmetic::div_mod::lemma_fundamental_div_mod(addr, size);
    vstd::arithmetic::div_mod::lemma_fundamental_div_mod(size, 256);
    assert(addr == 256 * ((size / 256) * (addr / size))) by (nonlinear_arith)
        requires
            addr == size * (addr / size),
            size == 256 * (size / 256),
    ;
    vstd::arithmetic::div_mod::lemma_mod_multiples_basic((size / 256) * (addr / size), 256);
}

/// Two blocks of one element type that start at different addresses share no
/// byte.
pub proof fn lemma_blocks_apart<T: Pod>(
    a: DynamicUniformBufferBlock<T>,
    b: DynamicUniformBufferBlock<T>,
)
    requires
        a.wf(),
        b.wf(),
        a.addr() != b.addr(),
    ensures
        a.addr() + block_size_of::<T>() <= b.addr() || b.addr() + block_size_of::<T>() <= a.addr(),
{
    let size = block_size_of::<T>() as int;
    let x = a.addr() as int;
    let y = b.addr() as int;
    vstd::arithmetic::div_mod::lemma_fundamental_div_mod(x, size);
    vstd::arithmetic::div_mod::lemma_fundamental_div_mod(y, size);
    assert(x + size <= y || y + size <= x) by (nonlinear_arith)
        requires
            size > 0,
            x == size * (x / size),
            y == size * (y / size),
            x != y,
    ;
}

/// After a value is written to a block, the staged copy holds its bytes
/// where the block starts.
pub proof fn lemma_block_holds_value<T: Pod>(
    staged: Seq<u8>,
    block: DynamicUniformBufferBlock<T>,
    val: T,
)
    requires
        block.wf(),
        staged.len() == DYNAMIC_UNIFORM_BUFFER_SIZE,
    ensures
        overwritten(staged, block.addr() as int, val.bytes()).subrange(
            block.addr() as int,
            (block.addr() + T::size_spec()) as int,
        ) == val.bytes(),
{
    val.lemma_bytes_len();
    lemma_write_then_read(staged, block.addr() as int, val.bytes());
}

/// Writing a value to one block leaves every other block as it was.
pub proof fn lemma_write_keeps_other_block<T: Pod>(
    staged: Seq<u8>,
    written: DynamicUniformBufferBlock<T>,
    other: DynamicUniformBufferBlock<T>,
    val: T,
)
    requires
        written.wf(),
        other.wf(),
        written.addr() != other.addr(),
        staged.len() == DYNAMIC_UNIFORM_BUFFER_SIZE,
    ensures
        overwritten(staged, written.addr() as int, val.bytes()).subrange(
            other.addr() as int,
            (other.addr() + block_size_of::<T>()) as int,
        ) == staged.subrange(
            other.addr() as int,
            (other.addr() + block_size_of::<T>()) as int,
        ),
{
    val.lemma_bytes_len();
    lemma_blocks_apart(written, other);
}

/// Of two values written to one block, no byte of the first is left.
pub proof fn lemma_second_value_replaces_first<T: Pod>(
    staged: Seq<u8>,
    block: DynamicUniformBufferBlock<T>,
    first: T,
    second: T,
)
    ensures
        overwritten(
            overwritten(staged, block.addr() as int, first.bytes()),
            block.addr() as int,
            second.bytes(),
        ) == overwritten(staged, block.addr() as int, second.bytes()),
{
    first.lemma_bytes_len();
    second.lemma_bytes_len();
    lemma_last_write_wins(staged, block.addr() as int, first.bytes(), second.bytes());
}

} // verus!
