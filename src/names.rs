//! Span names as the kernel compares them: fixed 128-byte, zero-padded
//! buffers, and the table that maps each watched name to its index.
use vstd::prelude::*;
use vstd::string::StringSliceAdditionalSpecFns;
use vstd::utf8::{encode_utf8, encode_utf8_decode_utf8};

verus! {

/// Width of the buffer a span name is compared in.
pub const MAX_NAME_SIZE: usize = 128;

/// Most span names that can be watched: an index must fit in a byte.
pub const MAX_SPANS: usize = 256;

/// `name` followed by zeros up to `MAX_NAME_SIZE` bytes.
pub open spec fn padded(name: Seq<u8>) -> Seq<u8> {
    name + Seq::new((MAX_NAME_SIZE - name.len()) as nat, |i: int| 0u8)
}

/// Copies `name` into a zero-padded buffer of `MAX_NAME_SIZE` bytes.
pub fn pad_name(name: &[u8]) -> (r: [u8; 128])
    requires
        name@.len() <= MAX_NAME_SIZE,
    ensures
        r@ == padded(name@),
{
    let mut buf: [u8; 128] = [0u8; 128];
    let mut i: usize = 0;
    while i < name.len()
        invariant
            name@.len() <= MAX_NAME_SIZE,
            i <= name@.len(),
            forall|j: int| 0 <= j < i ==> #[trigger] buf@[j] == name@[j],
            forall|j: int| i <= j < MAX_NAME_SIZE ==> #[trigger] buf@[j] == 0u8,
        decreases name@.len() - i,
    {
        buf[i] = name[i];
        i = i + 1;
    }
    assert(buf@ =~= padded(name@));
    buf
}

/// Copies the UTF-8 bytes of `s` into a zero-padded buffer of
/// `MAX_NAME_SIZE` bytes.
pub fn max_name_size_string(s: &str) -> (r: [u8; 128])
    requires
        s.spec_bytes().len() <= MAX_NAME_SIZE,
    ensures
        r@ == padded(s.spec_bytes()),
{
    pad_name(s.as_bytes())
}

/// Names of at most `MAX_NAME_SIZE` bytes without a zero byte have equal
/// padded forms exactly when they are equal.
pub proof fn lemma_padded_injective(a: Seq<u8>, b: Seq<u8>)
    requires
        a.len() <= MAX_NAME_SIZE,
        b.len() <= MAX_NAME_SIZE,
        forall|i: int| 0 <= i < a.len() ==> #[trigger] a[i] != 0u8,
        forall|i: int| 0 <= i < b.len() ==> #[trigger] b[i] != 0u8,
    ensures
        padded(a) == padded(b) <==> a == b,
{
    if padded(a) == padded(b) {
        if a.len() < b.len() {
            assert(padded(a)[a.len() as int] == 0u8);
            assert(padded(b)[a.len() as int] == b[a.len() as int]);
        } else if b.len() < a.len() {
            assert(padded(b)[b.len() as int] == 0u8);
            assert(padded(a)[b.len() as int] == a[b.len() as int]);
        } else {
            assert forall|i: int| 0 <= i < a.len() implies a[i] == b[i] by {
                assert(padded(a)[i] == a[i]);
                assert(padded(b)[i] == b[i]);
            }
            assert(a =~= b);
        }
    }
}

/// Two span names whose UTF-8 bytes fit the name buffer and hold no zero
/// byte get the same padded buffer exactly when they are the same name.
pub proof fn lemma_name_buffers_distinct(a: Seq<char>, b: Seq<char>)
    requires
        encode_utf8(a).len() <= MAX_NAME_SIZE,
        encode_utf8(b).len() <= MAX_NAME_SIZE,
        forall|i: int| 0 <= i < encode_utf8(a).len() ==> #[trigger] encode_utf8(a)[i] != 0u8,
        forall|i: int| 0 <= i < encode_utf8(b).len() ==> #[trigger] encode_utf8(b)[i] != 0u8,
    ensures
        padded(encode_utf8(a)) == padded(encode_utf8(b)) <==> a == b,
{
    lemma_padded_injective(encode_utf8(a), encode_utf8(b));
    encode_utf8_decode_utf8(a);
    encode_utf8_decode_utf8(b);
}

/// Why a set of span names cannot be watched.
#[derive(Clone, Copy, Debug, PartialEq, Eq, Structural)]
pub enum NameError {
    /// The name at this index is longer than `MAX_NAME_SIZE` bytes.
    NameTooLong(usize),
    /// More than `MAX_SPANS` names.
    TooManySpans,
}

/// The span name table: the padded name of each watched span, at its index.
pub struct SpanNameTable {
    entries: Vec<[u8; 128]>,
}

impl SpanNameTable {
    /// The padded names, in declaration order.
    pub closed spec fn names(self) -> Seq<Seq<u8>> {
        self.entries@.map_values(|e: [u8; 128]| e@)
    }

    pub closed spec fn wf(self) -> bool {
        self.entries@.len() <= MAX_SPANS
    }

    /// The table for the watched `spans`, in order. Fails when there are more
    /// than `MAX_SPANS` of them, or else at the first name longer than
    /// `MAX_NAME_SIZE` bytes.
    pub fn new(spans: &Vec<String>) -> (r: Result<SpanNameTable, NameError>)
        ensures
            r matches Ok(t) ==> {
                &&& t.wf()
                &&& t.names().len() == spans@.len()
                &&& forall|i: int|
                    0 <= i < spans@.len() ==> #[trigger] t.names()[i] == padded(
                        encode_utf8(spans@[i]@),
                    )
            },
            r is Ok <==> spans@.len() <= MAX_SPANS && forall|i: int|
                0 <= i < spans@.len() ==> (#[trigger] encode_utf8(spans@[i]@)).len()
                    <= MAX_NAME_SIZE,
            r == Err::<SpanNameTable, NameError>(NameError::TooManySpans) <==> spans@.len()
                > MAX_SPANS,
            r matches Err(NameError::NameTooLong(i)) ==> {
                &&& spans@.len() <= MAX_SPANS
                &&& i < spans@.len()
                &&& encode_utf8(spans@[i as int]@).len() > MAX_NAME_SIZE
                &&& forall|j: int|
                    0 <= j < i ==> (#[trigger] encode_utf8(spans@[j]@)).len()
                        <= MAX_NAME_SIZE
            },
    {
        if spans.len() > MAX_SPANS {
            return Err(NameError::TooManySpans);
        }
        let mut entries: Vec<[u8; 128]> = Vec::new();
        let mut i: usize = 0;
        while i < spans.len()
            invariant
                spans@.len() <= MAX_SPANS,
                i <= spans@.len(),
                entries@.len() == i,
                forall|j: int| 0 <= j < i ==> (#[trigger] encode_utf8(spans@[j]@)).len()
                    <= MAX_NAME_SIZE,
                forall|j: int|
                    0 <= j < i ==> #[trigger] entries@[j]@ == padded(encode_utf8(spans@[j]@)),
            decreases spans@.len() - i,
        {
            let name = spans[i].as_str();
            if name.as_bytes().len() > MAX_NAME_SIZE {
                return Err(NameError::NameTooLong(i));
            }
            entries.push(max_name_size_string(name));
            i = i + 1;
        }
        let t = SpanNameTable { entries };
        assert(t.names().len() == spans@.len());
        Ok(t)
    }

    pub fn len(&self) -> (r: usize)
        ensures
            r == self.names().len(),
    {
        self.entries.len()
    }

    /// The padded name at `index`, which the loader installs with that index.
    pub fn entry(&self, index: usize) -> (r: &[u8; 128])
        requires
            index < self.names().len(),
        ensures
            r@ == self.names()[index as int],
    {
        &self.entries[index]
    }

    /// The index of `key`: the last index holding it, as a later entry for the
    /// same key replaces an earlier one; `None` when no entry holds it.
    pub fn lookup(&self, key: &[u8; 128]) -> (r: Option<u8>)
        requires
            self.wf(),
        ensures
            r is None <==> forall|i: int| 0 <= i < self.names().len() ==> #[trigger] self.names()[i] != key@,
            r matches Some(n) ==> {
                &&& (n as int) < self.names().len()
                &&& self.names()[n as int] == key@
                &&& forall|i: int| n < i < self.names().len() ==> #[trigger] self.names()[i] != key@
            },
    {
        let mut i: usize = self.entries.len();
        while i > 0
            invariant
                i <= self.entries@.len(),
                self.entries@.len() <= MAX_SPANS,
                forall|j: int| i <= j < self.entries@.len() ==> #[trigger] self.names()[j] != key@,
            decreases i,
        {
            let j = i - 1;
            if bytes_equal(&self.entries[j], key) {
                assert(self.names()[j as int] == key@);
                return Some(j as u8);
            }
            i = j;
        }
        assert(self.names().len() == self.entries@.len());
        None
    }
}

fn bytes_equal(a: &[u8; 128], b: &[u8; 128]) -> (r: bool)
    ensures
        r == (a@ == b@),
{
    let mut i: usize = 0;
    while i < MAX_NAME_SIZE
        invariant
            i <= MAX_NAME_SIZE,
            forall|j: int| 0 <= j < i ==> a@[j] == b@[j],
        decreases MAX_NAME_SIZE - i,
    {
        if a[i] != b[i] {
            return false;
        }
        i = i + 1;
    }
    assert(a@ =~= b@);
    true
}

} // verus!
