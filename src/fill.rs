use vstd::prelude::*;

verus! {

/// `256^n`.
pub open spec fn pow256(n: nat) -> nat
    decreases n,
{
    if n == 0 {
        1
    } else {
        256 * pow256((n - 1) as nat)
    }
}

/// `256^n` is positive.
pub proof fn lemma_pow256_pos(n: nat)
    ensures
        pow256(n) > 0,
    decreases n,
{
    if n > 0 {
        lemma_pow256_pos((n - 1) as nat);
    }
}

/// The value of `b` read as a little-endian unsigned integer.
pub open spec fn le_value(b: Seq<u8>) -> nat
    decreases b.len(),
{
    if b.len() == 0 {
        0
    } else {
        b[0] as nat + 256 * le_value(b.drop_first())
    }
}

/// The `i`th chunk of `width` bytes of `b`.
pub open spec fn chunk(b: Seq<u8>, i: int, width: int) -> Seq<u8> {
    b.subrange(i * width, i * width + width)
}

proof fn lemma_pow256_grows(n: nat)
    requires
        n <= 8,
    ensures
        pow256(n) <= pow256(8),
        pow256(8) == 0x1_0000_0000_0000_0000,
    decreases 8 - n,
{
    reveal_with_fuel(pow256, 9);
    if n < 8 {
        lemma_pow256_grows(n + 1);
    }
}

/// Reads `width` bytes of `bytes` from `at` as a little-endian integer.
pub(crate) fn read_le(bytes: &[u8], at: usize, width: usize) -> (r: u64)
    requires
        width <= 8,
        at + width <= bytes@.len(),
    ensures
        r as int == le_value(bytes@.subrange(at as int, at + width)),
        (r as int) < pow256(width as nat),
{
    let total = bytes.len();
    let mut acc: u64 = 0;
    let mut j: usize = width;
    proof {
        assert(bytes@.subrange(at + width, at + width) =~= Seq::<u8>::empty());
    }
    while j > 0
        invariant
            j <= width <= 8,
            at + width <= bytes@.len(),
            total == bytes@.len(),
            acc as int == le_value(bytes@.subrange(at + j, at + width)),
            (acc as int) < pow256((width - j) as nat),
        decreases j,
    {
        proof {
            lemma_pow256_grows((width - j + 1) as nat);
        }
        let b = bytes[at + j - 1];
        assert(bytes@.subrange(at + j - 1, at + width).drop_first() =~= bytes@.subrange(at + j, at + width));
        assert(acc * 256 + b < pow256((width - j + 1) as nat));
        acc = acc * 256 + b as u64;
        j = j - 1;
    }
    acc
}

/// A destination of a bulk fill: a buffer of primitive integers whose values are
/// set from random bytes read in little-endian order, so that the values a source
/// gives are the same on every processor byte order.
pub trait AsByteSliceMut {
    /// How many bytes the buffer's values are read from.
    spec fn byte_count(&self) -> nat;

    /// Whether the buffer holds the little-endian reading of `bytes`.
    spec fn reads_le(&self, bytes: Seq<u8>) -> bool;

    /// Whether the buffer holds the same values as `other`.
    spec fn same_values(&self, other: &Self) -> bool;

    /// Every buffer holds the same values as itself.
    proof fn lemma_same_values_refl(&self)
        ensures
            self.same_values(self),
    ;

    /// How many bytes the buffer's values are read from.
    fn byte_len(&self) -> (r: usize)
        requires
            self.byte_count() <= usize::MAX,
        ensures
            r == self.byte_count(),
    ;

    /// Sets every value of the buffer from its chunk of `bytes`, in little-endian order.
    fn set_le_bytes(&mut self, bytes: &[u8])
        requires
            bytes@.len() == old(self).byte_count(),
        ensures
            final(self).byte_count() == old(self).byte_count(),
            final(self).reads_le(bytes@),
    ;
}

impl AsByteSliceMut for [u8] {
    open spec fn byte_count(&self) -> nat {
        self@.len()
    }

    open spec fn same_values(&self, other: &Self) -> bool {
        self@ == other@
    }

    proof fn lemma_same_values_refl(&self) {
    }

    open spec fn reads_le(&self, bytes: Seq<u8>) -> bool {
        self@ == bytes
    }

    fn byte_len(&self) -> (r: usize) {
        self.len()
    }

    fn set_le_bytes(&mut self, bytes: &[u8]) {
        let n = self.len();
        let total = bytes.len();
        let mut i: usize = 0;
        while i < n
            invariant
                n == self@.len(),
                total == bytes@.len(),
                n == bytes@.len(),
                i <= n,
                forall|j: int| 0 <= j < i ==> self@[j] == bytes@[j],
            decreases n - i,
        {
            self[i] = bytes[i];
            i = i + 1;
        }
        assert(self@ =~= bytes@);
    }
}


impl AsByteSliceMut for [u16] {
    open spec fn byte_count(&self) -> nat {
        2 * self@.len()
    }

    open spec fn same_values(&self, other: &Self) -> bool {
        self@ == other@
    }

    proof fn lemma_same_values_refl(&self) {
    }

    open spec fn reads_le(&self, bytes: Seq<u8>) -> bool {
        &&& bytes.len() == 2 * self@.len()
        &&& forall|i: int| 0 <= i < self@.len() ==> self@[i] == le_value(chunk(bytes, i, 2)) as u16
    }

    fn byte_len(&self) -> (r: usize) {
        2 * self.len()
    }

    fn set_le_bytes(&mut self, bytes: &[u8]) {
        let n = self.len();
        let total = bytes.len();
        let mut i: usize = 0;
        while i < n
            invariant
                n == self@.len(),
                total == bytes@.len(),
                2 * n == bytes@.len(),
                i <= n,
                forall|j: int| 0 <= j < i ==> self@[j] == le_value(chunk(bytes@, j, 2)) as u16,
            decreases n - i,
        {
            let v = read_le(bytes, 2 * i, 2) as u16;
            self[i] = v;
            i = i + 1;
        }
    }
}

impl AsByteSliceMut for [u32] {
    open spec fn byte_count(&self) -> nat {
        4 * self@.len()
    }

    open spec fn same_values(&self, other: &Self) -> bool {
        self@ == other@
    }

    proof fn lemma_same_values_refl(&self) {
    }

    open spec fn reads_le(&self, bytes: Seq<u8>) -> bool {
        &&& bytes.len() == 4 * self@.len()
        &&& forall|i: int| 0 <= i < self@.len() ==> self@[i] == le_value(chunk(bytes, i, 4)) as u32
    }

    fn byte_len(&self) -> (r: usize) {
        4 * self.len()
    }

    fn set_le_bytes(&mut self, bytes: &[u8]) {
        let n = self.len();
        let total = bytes.len();
        let mut i: usize = 0;
        while i < n
            invariant
                n == self@.len(),
                total == bytes@.len(),
                4 * n == bytes@.len(),
                i <= n,
                forall|j: int| 0 <= j < i ==> self@[j] == le_value(chunk(bytes@, j, 4)) as u32,
            decreases n - i,
        {
            let v = read_le(bytes, 4 * i, 4) as u32;
            self[i] = v;
            i = i + 1;
        }
    }
}

impl AsByteSliceMut for [u64] {
    open spec fn byte_count(&self) -> nat {
        8 * self@.len()
    }

    open spec fn same_values(&self, other: &Self) -> bool {
        self@ == other@
    }

    proof fn lemma_same_values_refl(&self) {
    }

    open spec fn reads_le(&self, bytes: Seq<u8>) -> bool {
        &&& bytes.len() == 8 * self@.len()
        &&& forall|i: int| 0 <= i < self@.len() ==> self@[i] == le_value(chunk(bytes, i, 8)) as u64
    }

    fn byte_len(&self) -> (r: usize) {
        8 * self.len()
    }

    fn set_le_bytes(&mut self, bytes: &[u8]) {
        let n = self.len();
        let total = bytes.len();
        let mut i: usize = 0;
        while i < n
            invariant
                n == self@.len(),
                total == bytes@.len(),
                8 * n == bytes@.len(),
                i <= n,
                forall|j: int| 0 <= j < i ==> self@[j] == le_value(chunk(bytes@, j, 8)) as u64,
            decreases n - i,
        {
            let v = read_le(bytes, 8 * i, 8) as u64;
            self[i] = v;
            i = i + 1;
        }
    }
}

impl AsByteSliceMut for [i8] {
    open spec fn byte_count(&self) -> nat {
        1 * self@.len()
    }

    open spec fn same_values(&self, other: &Self) -> bool {
        self@ == other@
    }

    proof fn lemma_same_values_refl(&self) {
    }

    open spec fn reads_le(&self, bytes: Seq<u8>) -> bool {
        &&& bytes.len() == 1 * self@.len()
        &&& forall|i: int| 0 <= i < self@.len() ==> self@[i] == #[verifier::truncate] ((le_value(chunk(bytes, i, 1)) as u8) as i8)
    }

    fn byte_len(&self) -> (r: usize) {
        1 * self.len()
    }

    fn set_le_bytes(&mut self, bytes: &[u8]) {
        let n = self.len();
        let total = bytes.len();
        let mut i: usize = 0;
        while i < n
            invariant
                n == self@.len(),
                total == bytes@.len(),
                1 * n == bytes@.len(),
                i <= n,
                forall|j: int| 0 <= j < i ==> self@[j] == #[verifier::truncate] ((le_value(chunk(bytes@, j, 1)) as u8) as i8),
            decreases n - i,
        {
            let v = (read_le(bytes, 1 * i, 1) as u8) as i8;
            self[i] = v;
            i = i + 1;
        }
    }
}

impl AsByteSliceMut for [i16] {
    open spec fn byte_count(&self) -> nat {
        2 * self@.len()
    }

    open spec fn same_values(&self, other: &Self) -> bool {
        self@ == other@
    }

    proof fn lemma_same_values_refl(&self) {
    }

    open spec fn reads_le(&self, bytes: Seq<u8>) -> bool {
        &&& bytes.len() == 2 * self@.len()
        &&& forall|i: int| 0 <= i < self@.len() ==> self@[i] == #[verifier::truncate] ((le_value(chunk(bytes, i, 2)) as u16) as i16)
    }

    fn byte_len(&self) -> (r: usize) {
        2 * self.len()
    }

    fn set_le_bytes(&mut self, bytes: &[u8]) {
        let n = self.len();
        let total = bytes.len();
        let mut i: usize = 0;
        while i < n
            invariant
                n == self@.len(),
                total == bytes@.len(),
                2 * n == bytes@.len(),
                i <= n,
                forall|j: int| 0 <= j < i ==> self@[j] == #[verifier::truncate] ((le_value(chunk(bytes@, j, 2)) as u16) as i16),
            decreases n - i,
        {
            let v = (read_le(bytes, 2 * i, 2) as u16) as i16;
            self[i] = v;
            i = i + 1;
        }
    }
}

impl AsByteSliceMut for [i32] {
    open spec fn byte_count(&self) -> nat {
        4 * self@.len()
    }

    open spec fn same_values(&self, other: &Self) -> bool {
        self@ == other@
    }

    proof fn lemma_same_values_refl(&self) {
    }

    open spec fn reads_le(&self, bytes: Seq<u8>) -> bool {
        &&& bytes.len() == 4 * self@.len()
        &&& forall|i: int| 0 <= i < self@.len() ==> self@[i] == #[verifier::truncate] ((le_value(chunk(bytes, i, 4)) as u32) as i32)
    }

    fn byte_len(&self) -> (r: usize) {
        4 * self.len()
    }

    fn set_le_bytes(&mut self, bytes: &[u8]) {
        let n = self.len();
        let total = bytes.len();
        let mut i: usize = 0;
        while i < n
            invariant
                n == self@.len(),
                total == bytes@.len(),
                4 * n == bytes@.len(),
                i <= n,
                forall|j: int| 0 <= j < i ==> self@[j] == #[verifier::truncate] ((le_value(chunk(bytes@, j, 4)) as u32) as i32),
            decreases n - i,
        {
            let v = (read_le(bytes, 4 * i, 4) as u32) as i32;
            self[i] = v;
            i = i + 1;
        }
    }
}

impl AsByteSliceMut for [i64] {
    open spec fn byte_count(&self) -> nat {
        8 * self@.len()
    }

    open spec fn same_values(&self, other: &Self) -> bool {
        self@ == other@
    }

    proof fn lemma_same_values_refl(&self) {
    }

    open spec fn reads_le(&self, bytes: Seq<u8>) -> bool {
        &&& bytes.len() == 8 * self@.len()
        &&& forall|i: int| 0 <= i < self@.len() ==> self@[i] == #[verifier::truncate] ((le_value(chunk(bytes, i, 8)) as u64) as i64)
    }

    fn byte_len(&self) -> (r: usize) {
        8 * self.len()
    }

    fn set_le_bytes(&mut self, bytes: &[u8]) {
        let n = self.len();
        let total = bytes.len();
        let mut i: usize = 0;
        while i < n
            invariant
                n == self@.len(),
                total == bytes@.len(),
                8 * n == bytes@.len(),
                i <= n,
                forall|j: int| 0 <= j < i ==> self@[j] == #[verifier::truncate] ((le_value(chunk(bytes@, j, 8)) as u64) as i64),
            decreases n - i,
        {
            let v = (read_le(bytes, 8 * i, 8) as u64) as i64;
            self[i] = v;
            i = i + 1;
        }
    }
}


impl<const N: usize> AsByteSliceMut for [u8; N] {
    open spec fn byte_count(&self) -> nat {
        self@.len()
    }

    open spec fn same_values(&self, other: &Self) -> bool {
        self@ == other@
    }

    proof fn lemma_same_values_refl(&self) {
    }

    open spec fn reads_le(&self, bytes: Seq<u8>) -> bool {
        self@ == bytes
    }

    fn byte_len(&self) -> (r: usize) {
        self.len()
    }

    fn set_le_bytes(&mut self, bytes: &[u8]) {
        let n = self.len();
        let total = bytes.len();
        let mut i: usize = 0;
        while i < n
            invariant
                n == self@.len(),
                total == bytes@.len(),
                n == bytes@.len(),
                i <= n,
                forall|j: int| 0 <= j < i ==> self@[j] == bytes@[j],
            decreases n - i,
        {
            self[i] = bytes[i];
            i = i + 1;
        }
        assert(self@ =~= bytes@);
    }
}

impl<const N: usize> AsByteSliceMut for [u16; N] {
    open spec fn byte_count(&self) -> nat {
        2 * self@.len()
    }

    open spec fn same_values(&self, other: &Self) -> bool {
        self@ == other@
    }

    proof fn lemma_same_values_refl(&self) {
    }

    open spec fn reads_le(&self, bytes: Seq<u8>) -> bool {
        &&& bytes.len() == 2 * self@.len()
        &&& forall|i: int| 0 <= i < self@.len() ==> self@[i] == le_value(chunk(bytes, i, 2)) as u16
    }

    fn byte_len(&self) -> (r: usize) {
        2 * self.len()
    }

    fn set_le_bytes(&mut self, bytes: &[u8]) {
        let n = self.len();
        let total = bytes.len();
        let mut i: usize = 0;
        while i < n
            invariant
                n == self@.len(),
                total == bytes@.len(),
                2 * n == bytes@.len(),
                i <= n,
                forall|j: int| 0 <= j < i ==> self@[j] == le_value(chunk(bytes@, j, 2)) as u16,
            decreases n - i,
        {
            let v = read_le(bytes, 2 * i, 2) as u16;
            self[i] = v;
            i = i + 1;
        }
    }
}

impl<const N: usize> AsByteSliceMut for [u32; N] {
    open spec fn byte_count(&self) -> nat {
        4 * self@.len()
    }

    open spec fn same_values(&self, other: &Self) -> bool {
        self@ == other@
    }

    proof fn lemma_same_values_refl(&self) {
    }

    open spec fn reads_le(&self, bytes: Seq<u8>) -> bool {
        &&& bytes.len() == 4 * self@.len()
        &&& forall|i: int| 0 <= i < self@.len() ==> self@[i] == le_value(chunk(bytes, i, 4)) as u32
    }

    fn byte_len(&self) -> (r: usize) {
        4 * self.len()
    }

    fn set_le_bytes(&mut self, bytes: &[u8]) {
        let n = self.len();
        let total = bytes.len();
        let mut i: usize = 0;
        while i < n
            invariant
                n == self@.len(),
                total == bytes@.len(),
                4 * n == bytes@.len(),
                i <= n,
                forall|j: int| 0 <= j < i ==> self@[j] == le_value(chunk(bytes@, j, 4)) as u32,
            decreases n - i,
        {
            let v = read_le(bytes, 4 * i, 4) as u32;
            self[i] = v;
            i = i + 1;
        }
    }
}

impl<const N: usize> AsByteSliceMut for [u64; N] {
    open spec fn byte_count(&self) -> nat {
        8 * self@.len()
    }

    open spec fn same_values(&self, other: &Self) -> bool {
        self@ == other@
    }

    proof fn lemma_same_values_refl(&self) {
    }

    open spec fn reads_le(&self, bytes: Seq<u8>) -> bool {
        &&& bytes.len() == 8 * self@.len()
        &&& forall|i: int| 0 <= i < self@.len() ==> self@[i] == le_value(chunk(bytes, i, 8)) as u64
    }

    fn byte_len(&self) -> (r: usize) {
        8 * self.len()
    }

    fn set_le_bytes(&mut self, bytes: &[u8]) {
        let n = self.len();
        let total = bytes.len();
        let mut i: usize = 0;
        while i < n
            invariant
                n == self@.len(),
                total == bytes@.len(),
                8 * n == bytes@.len(),
                i <= n,
                forall|j: int| 0 <= j < i ==> self@[j] == le_value(chunk(bytes@, j, 8)) as u64,
            decreases n - i,
        {
            let v = read_le(bytes, 8 * i, 8) as u64;
            self[i] = v;
            i = i + 1;
        }
    }
}

impl<const N: usize> AsByteSliceMut for [i8; N] {
    open spec fn byte_count(&self) -> nat {
        1 * self@.len()
    }

    open spec fn same_values(&self, other: &Self) -> bool {
        self@ == other@
    }

    proof fn lemma_same_values_refl(&self) {
    }

    open spec fn reads_le(&self, bytes: Seq<u8>) -> bool {
        &&& bytes.len() == 1 * self@.len()
        &&& forall|i: int| 0 <= i < self@.len() ==> self@[i] == #[verifier::truncate] ((le_value(chunk(bytes, i, 1)) as u8) as i8)
    }

    fn byte_len(&self) -> (r: usize) {
        1 * self.len()
    }

    fn set_le_bytes(&mut self, bytes: &[u8]) {
        let n = self.len();
        let total = bytes.len();
        let mut i: usize = 0;
        while i < n
            invariant
                n == self@.len(),
                total == bytes@.len(),
                1 * n == bytes@.len(),
                i <= n,
                forall|j: int| 0 <= j < i ==> self@[j] == #[verifier::truncate] ((le_value(chunk(bytes@, j, 1)) as u8) as i8),
            decreases n - i,
        {
            let v = (read_le(bytes, 1 * i, 1) as u8) as i8;
            self[i] = v;
            i = i + 1;
        }
    }
}

impl<const N: usize> AsByteSliceMut for [i16; N] {
    open spec fn byte_count(&self) -> nat {
        2 * self@.len()
    }

    open spec fn same_values(&self, other: &Self) -> bool {
        self@ == other@
    }

    proof fn lemma_same_values_refl(&self) {
    }

    open spec fn reads_le(&self, bytes: Seq<u8>) -> bool {
        &&& bytes.len() == 2 * self@.len()
        &&& forall|i: int| 0 <= i < self@.len() ==> self@[i] == #[verifier::truncate] ((le_value(chunk(bytes, i, 2)) as u16) as i16)
    }

    fn byte_len(&self) -> (r: usize) {
        2 * self.len()
    }

    fn set_le_bytes(&mut self, bytes: &[u8]) {
        let n = self.len();
        let total = bytes.len();
        let mut i: usize = 0;
        while i < n
            invariant
                n == self@.len(),
                total == bytes@.len(),
                2 * n == bytes@.len(),
                i <= n,
                forall|j: int| 0 <= j < i ==> self@[j] == #[verifier::truncate] ((le_value(chunk(bytes@, j, 2)) as u16) as i16),
            decreases n - i,
        {
            let v = (read_le(bytes, 2 * i, 2) as u16) as i16;
            self[i] = v;
            i = i + 1;
        }
    }
}

impl<const N: usize> AsByteSliceMut for [i32; N] {
    open spec fn byte_count(&self) -> nat {
        4 * self@.len()
    }

    open spec fn same_values(&self, other: &Self) -> bool {
        self@ == other@
    }

    proof fn lemma_same_values_refl(&self) {
    }

    open spec fn reads_le(&self, bytes: Seq<u8>) -> bool {
        &&& bytes.len() == 4 * self@.len()
        &&& forall|i: int| 0 <= i < self@.len() ==> self@[i] == #[verifier::truncate] ((le_value(chunk(bytes, i, 4)) as u32) as i32)
    }

    fn byte_len(&self) -> (r: usize) {
        4 * self.len()
    }

    fn set_le_bytes(&mut self, bytes: &[u8]) {
        let n = self.len();
        let total = bytes.len();
        let mut i: usize = 0;
        while i < n
            invariant
                n == self@.len(),
                total == bytes@.len(),
                4 * n == bytes@.len(),
                i <= n,
                forall|j: int| 0 <= j < i ==> self@[j] == #[verifier::truncate] ((le_value(chunk(bytes@, j, 4)) as u32) as i32),
            decreases n - i,
        {
            let v = (read_le(bytes, 4 * i, 4) as u32) as i32;
            self[i] = v;
            i = i + 1;
        }
    }
}

impl<const N: usize> AsByteSliceMut for [i64; N] {
    open spec fn byte_count(&self) -> nat {
        8 * self@.len()
    }

    open spec fn same_values(&self, other: &Self) -> bool {
        self@ == other@
    }

    proof fn lemma_same_values_refl(&self) {
    }

    open spec fn reads_le(&self, bytes: Seq<u8>) -> bool {
        &&& bytes.len() == 8 * self@.len()
        &&& forall|i: int| 0 <= i < self@.len() ==> self@[i] == #[verifier::truncate] ((le_value(chunk(bytes, i, 8)) as u64) as i64)
    }

    fn byte_len(&self) -> (r: usize) {
        8 * self.len()
    }

    fn set_le_bytes(&mut self, bytes: &[u8]) {
        let n = self.len();
        let total = bytes.len();
        let mut i: usize = 0;
        while i < n
            invariant
                n == self@.len(),
                total == bytes@.len(),
                8 * n == bytes@.len(),
                i <= n,
                forall|j: int| 0 <= j < i ==> self@[j] == #[verifier::truncate] ((le_value(chunk(bytes@, j, 8)) as u64) as i64),
            decreases n - i,
        {
            let v = (read_le(bytes, 8 * i, 8) as u64) as i64;
            self[i] = v;
            i = i + 1;
        }
    }
}

impl AsByteSliceMut for [usize] {
    open spec fn byte_count(&self) -> nat {
        vstd::layout::size_of::<usize>() * self@.len()
    }

    open spec fn same_values(&self, other: &Self) -> bool {
        self@ == other@
    }

    proof fn lemma_same_values_refl(&self) {
    }

    open spec fn reads_le(&self, bytes: Seq<u8>) -> bool {
        &&& bytes.len() == vstd::layout::size_of::<usize>() * self@.len()
        &&& forall|i: int| 0 <= i < self@.len() ==> self@[i] == le_value(chunk(bytes, i, vstd::layout::size_of::<usize>() as int)) as usize
    }

    fn byte_len(&self) -> (r: usize) {
        core::mem::size_of::<usize>() * self.len()
    }

    fn set_le_bytes(&mut self, bytes: &[u8]) {
        broadcast use vstd::layout::layout_of_primitives;
        let w = core::mem::size_of::<usize>();
        proof {
            assert(w <= 8);
        }
        let n = self.len();
        let total = bytes.len();
        let mut i: usize = 0;
        while i < n
            invariant
                n == self@.len(),
                total == bytes@.len(),
                w * n == bytes@.len(),
                w == vstd::layout::size_of::<usize>(),
                w <= 8,
                i <= n,
                forall|j: int| 0 <= j < i ==> self@[j] == le_value(chunk(bytes@, j, vstd::layout::size_of::<usize>() as int)) as usize,
            decreases n - i,
        {
            proof {
                assert(w * i + w <= w * n) by (nonlinear_arith)
                    requires
                        i < n,
                ;
                assert((i as int) * (w as int) == (w as int) * (i as int)) by (nonlinear_arith);
            }
            let v = read_le(bytes, w * i, w) as usize;
            self[i] = v;
            i = i + 1;
        }
    }
}

impl AsByteSliceMut for [isize] {
    open spec fn byte_count(&self) -> nat {
        vstd::layout::size_of::<usize>() * self@.len()
    }

    open spec fn same_values(&self, other: &Self) -> bool {
        self@ == other@
    }

    proof fn lemma_same_values_refl(&self) {
    }

    open spec fn reads_le(&self, bytes: Seq<u8>) -> bool {
        &&& bytes.len() == vstd::layout::size_of::<usize>() * self@.len()
        &&& forall|i: int| 0 <= i < self@.len() ==> self@[i] == #[verifier::truncate] ((#[verifier::truncate] (le_value(chunk(bytes, i, vstd::layout::size_of::<usize>() as int)) as usize)) as isize)
    }

    fn byte_len(&self) -> (r: usize) {
        core::mem::size_of::<usize>() * self.len()
    }

    fn set_le_bytes(&mut self, bytes: &[u8]) {
        broadcast use vstd::layout::layout_of_primitives;
        let w = core::mem::size_of::<usize>();
        proof {
            assert(w <= 8);
        }
        let n = self.len();
        let total = bytes.len();
        let mut i: usize = 0;
        while i < n
            invariant
                n == self@.len(),
                total == bytes@.len(),
                w * n == bytes@.len(),
                w == vstd::layout::size_of::<usize>(),
                w <= 8,
                i <= n,
                forall|j: int| 0 <= j < i ==> self@[j] == #[verifier::truncate] ((#[verifier::truncate] (le_value(chunk(bytes@, j, vstd::layout::size_of::<usize>() as int)) as usize)) as isize),
            decreases n - i,
        {
            proof {
                assert(w * i + w <= w * n) by (nonlinear_arith)
                    requires
                        i < n,
                ;
                assert((i as int) * (w as int) == (w as int) * (i as int)) by (nonlinear_arith);
            }
            let v = (read_le(bytes, w * i, w) as usize) as isize;
            self[i] = v;
            i = i + 1;
        }
    }
}

impl<const N: usize> AsByteSliceMut for [usize; N] {
    open spec fn byte_count(&self) -> nat {
        vstd::layout::size_of::<usize>() * self@.len()
    }

    open spec fn same_values(&self, other: &Self) -> bool {
        self@ == other@
    }

    proof fn lemma_same_values_refl(&self) {
    }

    open spec fn reads_le(&self, bytes: Seq<u8>) -> bool {
        &&& bytes.len() == vstd::layout::size_of::<usize>() * self@.len()
        &&& forall|i: int| 0 <= i < self@.len() ==> self@[i] == le_value(chunk(bytes, i, vstd::layout::size_of::<usize>() as int)) as usize
    }

    fn byte_len(&self) -> (r: usize) {
        core::mem::size_of::<usize>() * self.len()
    }

    fn set_le_bytes(&mut self, bytes: &[u8]) {
        broadcast use vstd::layout::layout_of_primitives;
        let w = core::mem::size_of::<usize>();
        proof {
            assert(w <= 8);
        }
        let n = self.len();
        let total = bytes.len();
        let mut i: usize = 0;
        while i < n
            invariant
                n == self@.len(),
                total == bytes@.len(),
                w * n == bytes@.len(),
                w == vstd::layout::size_of::<usize>(),
                w <= 8,
                i <= n,
                forall|j: int| 0 <= j < i ==> self@[j] == le_value(chunk(bytes@, j, vstd::layout::size_of::<usize>() as int)) as usize,
            decreases n - i,
        {
            proof {
                assert(w * i + w <= w * n) by (nonlinear_arith)
                    requires
                        i < n,
                ;
                assert((i as int) * (w as int) == (w as int) * (i as int)) by (nonlinear_arith);
            }
            let v = read_le(bytes, w * i, w) as usize;
            self[i] = v;
            i = i + 1;
        }
    }
}

impl<const N: usize> AsByteSliceMut for [isize; N] {
    open spec fn byte_count(&self) -> nat {
        vstd::layout::size_of::<usize>() * self@.len()
    }

    open spec fn same_values(&self, other: &Self) -> bool {
        self@ == other@
    }

    proof fn lemma_same_values_refl(&self) {
    }

    open spec fn reads_le(&self, bytes: Seq<u8>) -> bool {
        &&& bytes.len() == vstd::layout::size_of::<usize>() * self@.len()
        &&& forall|i: int| 0 <= i < self@.len() ==> self@[i] == #[verifier::truncate] ((#[verifier::truncate] (le_value(chunk(bytes, i, vstd::layout::size_of::<usize>() as int)) as usize)) as isize)
    }

    fn byte_len(&self) -> (r: usize) {
        core::mem::size_of::<usize>() * self.len()
    }

    fn set_le_bytes(&mut self, bytes: &[u8]) {
        broadcast use vstd::layout::layout_of_primitives;
        let w = core::mem::size_of::<usize>();
        proof {
            assert(w <= 8);
        }
        let n = self.len();
        let total = bytes.len();
        let mut i: usize = 0;
        while i < n
            invariant
                n == self@.len(),
                total == bytes@.len(),
                w * n == bytes@.len(),
                w == vstd::layout::size_of::<usize>(),
                w <= 8,
                i <= n,
                forall|j: int| 0 <= j < i ==> self@[j] == #[verifier::truncate] ((#[verifier::truncate] (le_value(chunk(bytes@, j, vstd::layout::size_of::<usize>() as int)) as usize)) as isize),
            decreases n - i,
        {
            proof {
                assert(w * i + w <= w * n) by (nonlinear_arith)
                    requires
                        i < n,
                ;
                assert((i as int) * (w as int) == (w as int) * (i as int)) by (nonlinear_arith);
            }
            let v = (read_le(bytes, w * i, w) as usize) as isize;
            self[i] = v;
            i = i + 1;
        }
    }
}

} // verus!
