//! Body handling: the caller's payload brought to its canonical byte form,
//! the buffer that accumulates a response body frame by frame, and the
//! decimal reading of a declared `content-length`.

use vstd::prelude::*;
use vstd::string::StrSliceExecFns;
use vstd::utf8::encode_utf8;

use crate::headers::Headers;

verus! {

/// The caller's body payload, decided once at the boundary: raw bytes, a
/// text, or nothing.
pub enum RequestPayload {
    Bytes(Vec<u8>),
    Text(String),
    Empty,
}

/// The canonical byte form of a payload: bytes unchanged, text as its UTF-8
/// encoding, nothing as the empty body.
pub open spec fn payload_spec(p: RequestPayload) -> Seq<u8> {
    match p {
        RequestPayload::Bytes(b) => b@,
        RequestPayload::Text(s) => encode_utf8(s@),
        RequestPayload::Empty => Seq::empty(),
    }
}

/// Converts a payload to the canonical byte form sent as the request body.
pub fn payload_bytes(p: RequestPayload) -> (r: Vec<u8>)
    ensures
        r@ == payload_spec(p),
{
    match p {
        RequestPayload::Bytes(b) => b,
        RequestPayload::Text(s) => s.as_str().as_bytes_vec(),
        RequestPayload::Empty => Vec::new(),
    }
}

// ---------------------------------------------------------------------------
// Decimal reading of a declared content length.
// ---------------------------------------------------------------------------

/// A decimal digit character.
pub open spec fn is_dec_digit(c: char) -> bool {
    48 <= c as u32 <= 57
}

/// All characters are decimal digits.
pub open spec fn all_dec_digits(s: Seq<char>) -> bool {
    forall|i: int| 0 <= i < s.len() ==> is_dec_digit(#[trigger] s[i])
}

/// The number the digit characters denote, most significant first.
pub open spec fn digits_val(s: Seq<char>) -> int
    recommends
        all_dec_digits(s),
    decreases s.len(),
{
    if s.len() == 0 {
        0
    } else {
        digits_val(s.drop_last()) * 10 + (s.last() as u32 - 48)
    }
}

proof fn lemma_digits_val_nonneg(s: Seq<char>)
    requires
        all_dec_digits(s),
    ensures
        digits_val(s) >= 0,
    decreases s.len(),
{
    if s.len() > 0 {
        assert(forall|i: int|
            0 <= i < s.drop_last().len() ==> is_dec_digit(#[trigger] s.drop_last()[i]));
        lemma_digits_val_nonneg(s.drop_last());
    }
}

/// A digit string's value never shrinks as it is extended to the right.
proof fn lemma_digits_val_take_mono(s: Seq<char>, i: int)
    requires
        all_dec_digits(s),
        0 <= i <= s.len(),
    ensures
        digits_val(s.take(i)) <= digits_val(s),
    decreases s.len() - i,
{
    if i < s.len() {
        assert(forall|j: int| 0 <= j < s.take(i + 1).len() ==> is_dec_digit(
            #[trigger] s.take(i + 1)[j],
        ));
        assert(s.take(i + 1).drop_last() =~= s.take(i));
        lemma_digits_val_nonneg(s.take(i));
        assert(digits_val(s.take(i)) <= digits_val(s.take(i + 1)));
        lemma_digits_val_take_mono(s, i + 1);
        assert(s.take(s.len() as int) =~= s);
    } else {
        assert(s.take(i) =~= s);
    }
}

/// Reads a decimal number. Accepts exactly the nonempty all-digit strings
/// whose value fits the machine's size type, and returns exactly that value.
pub fn parse_decimal(s: &str) -> (r: Option<usize>)
    ensures
        r.is_some() <==> s@.len() > 0 && all_dec_digits(s@) && digits_val(s@) <= usize::MAX,
        r matches Some(n) ==> n == digits_val(s@),
{
    let n = s.unicode_len();
    if n == 0 {
        return None;
    }
    let mut i: usize = 0;
    let mut val: usize = 0;
    proof {
        assert(s@.take(0) =~= Seq::<char>::empty());
    }
    while i < n
        invariant
            i <= n,
            n == s@.len(),
            forall|j: int| 0 <= j < i ==> is_dec_digit(#[trigger] s@[j]),
            val == digits_val(s@.take(i as int)),
        decreases n - i,
    {
        let c = s.get_char(i);
        let u = c as u32;
        if u < 48 || u > 57 {
            return None;
        }
        let d = (u - 48) as usize;
        let ghost prefix = s@.take(i as int);
        proof {
            assert(s@.take(i + 1).drop_last() =~= prefix);
            assert(s@.take(i + 1).last() == s@[i as int]);
            assert(forall|j: int| 0 <= j < s@.take(i + 1).len() ==> is_dec_digit(
                #[trigger] s@.take(i + 1)[j],
            ));
        }
        let next = match val.checked_mul(10) {
            Some(v) => v,
            None => {
                proof {
                    overflow_case(s@, i as int);
                }
                return None;
            },
        };
        let next = match next.checked_add(d) {
            Some(v) => v,
            None => {
                proof {
                    overflow_case(s@, i as int);
                }
                return None;
            },
        };
        val = next;
        i = i + 1;
    }
    proof {
        assert(s@.take(n as int) =~= s@);
    }
    Some(val)
}

/// When the value of a digit prefix already exceeds the size type, so does
/// the value of any extension of it, provided the whole string is digits;
/// and when some later character is not a digit, the whole string is not all
/// digits either way.
proof fn overflow_case(s: Seq<char>, i: int)
    requires
        0 <= i < s.len(),
        forall|j: int| 0 <= j <= i ==> is_dec_digit(#[trigger] s[j]),
        digits_val(s.take(i + 1)) > usize::MAX,
    ensures
        !(all_dec_digits(s) && digits_val(s) <= usize::MAX),
{
    if all_dec_digits(s) {
        lemma_digits_val_take_mono(s, i + 1);
    }
}

// ---------------------------------------------------------------------------
// The response buffer.
// ---------------------------------------------------------------------------

/// The byte accumulator a response body is drained into, frame by frame. Its
/// contents are exactly the concatenation of the appended frames; it is
/// handed to the caller whole or, on any frame failure, discarded whole.
pub struct ResponseBuffer {
    data: Vec<u8>,
}

impl View for ResponseBuffer {
    type V = Seq<u8>;

    closed spec fn view(&self) -> Seq<u8> {
        self.data@
    }
}

impl ResponseBuffer {
    /// An empty buffer. The capacity is a size hint only; it leaves the
    /// contents empty.
    pub fn new(capacity: usize) -> (r: ResponseBuffer)
        ensures
            r@ == Seq::<u8>::empty(),
    {
        ResponseBuffer { data: Vec::with_capacity(capacity) }
    }

    /// Appends one frame's data.
    pub fn append(&mut self, chunk: &[u8])
        ensures
            final(self)@ == old(self)@ + chunk@,
    {
        self.data.extend_from_slice(chunk);
    }

    /// The accumulated body, delivered to the caller.
    pub fn into_bytes(self) -> (r: Vec<u8>)
        ensures
            r@ == self@,
    {
        self.data
    }

    /// How many bytes have accumulated.
    pub fn len(&self) -> (r: usize)
        ensures
            r == self@.len(),
    {
        self.data.len()
    }
}

/// The buffer size hinted by the response headers: the declared
/// `content-length` when it is present and reads as a decimal number, else
/// zero, the buffer then growing as frames arrive. A malformed declaration
/// is treated as absent rather than failing the request.
pub open spec fn capacity_spec(headers: Map<Seq<char>, Seq<char>>) -> int {
    if headers.dom().contains("content-length"@) {
        let v = headers["content-length"@];
        if v.len() > 0 && all_dec_digits(v) && digits_val(v) <= usize::MAX {
            digits_val(v)
        } else {
            0
        }
    } else {
        0
    }
}

/// Reads the buffer size hint out of a response's header table.
pub fn buffer_capacity(headers: &Headers) -> (r: usize)
    requires
        headers.wf(),
    ensures
        r == capacity_spec(headers@),
{
    let name: String = "content-length".to_owned();
    match headers.get(&name) {
        Some(v) => match parse_decimal(v.as_str()) {
            Some(n) => n,
            None => 0,
        },
        None => 0,
    }
}

} // verus!
