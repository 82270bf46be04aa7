//! Boundary helpers: the two-call enumeration pattern, byte-string
//! comparison, fixed-size buffer filling, and recovery of the UTF-8 text a
//! NUL-terminated C buffer stands for.

use crate::codes::LayerError;
use vstd::prelude::*;

verus! {

/// Compares two byte strings for exact, case-sensitive equality.
pub fn bytes_eq(a: &Vec<u8>, b: &Vec<u8>) -> (r: bool)
    ensures
        r == (a@ == b@),
{
    if a.len() != b.len() {
        return false;
    }
    let n = a.len();
    let mut i: usize = 0;
    while i < n
        invariant
            n == a@.len(),
            n == b@.len(),
            i <= n,
            forall|j: int| 0 <= j < i ==> a@[j] == b@[j],
        decreases n - i,
    {
        if a[i] != b[i] {
            return false;
        }
        i = i + 1;
    }
    proof {
        assert(a@ =~= b@);
    }
    true
}

/// The enumeration-style two-call pattern. The true item count is always
/// reported through `output_count`. A call with `input_count` 0 succeeds
/// without touching the output buffer (the counting call). A positive
/// `input_count` smaller than the item count fails with `SizeInsufficient`
/// and leaves the buffer untouched. Otherwise the buffer receives exactly
/// the items.
pub fn enumerate<I: Copy>(
    input_count: u32,
    output_count: &mut u32,
    items_out: &mut Vec<I>,
    items: &Vec<I>,
) -> (r: Result<(), LayerError>)
    requires
        items@.len() <= u32::MAX,
    ensures
        *final(output_count) == items@.len(),
        input_count == 0 ==> (r is Ok && final(items_out)@ == old(items_out)@),
        0 < input_count < items@.len() ==> (r == Err::<(), LayerError>(
            LayerError::SizeInsufficient,
        ) && final(items_out)@ == old(items_out)@),
        input_count > 0 && input_count >= items@.len() ==> (r is Ok && final(items_out)@
            == items@),
{
    *output_count = items.len() as u32;
    if input_count == 0 {
        return Ok(());
    }
    if (input_count as usize) < items.len() {
        return Err(LayerError::SizeInsufficient);
    }
    items_out.clear();
    let n = items.len();
    let mut i: usize = 0;
    while i < n
        invariant
            n == items@.len(),
            i <= n,
            items_out@.len() == i,
            forall|j: int| 0 <= j < i ==> items_out@[j] == items@[j],
        decreases n - i,
    {
        items_out.push(items[i]);
        i = i + 1;
    }
    proof {
        assert(items_out@ =~= items@);
    }
    Ok(())
}

/// Copies `s` into the fixed-size buffer contents `buf`, truncating at the
/// buffer's length and zero-filling whatever the copy does not reach.
pub fn copy_str_to_buffer(s: &Vec<u8>, buf: &mut Vec<u8>)
    ensures
        final(buf)@.len() == old(buf)@.len(),
        forall|i: int|
            0 <= i < final(buf)@.len() ==> final(buf)@[i] == (if i < s@.len() {
                s@[i]
            } else {
                0u8
            }),
{
    let n = buf.len();
    let mut out: Vec<u8> = Vec::new();
    let mut i: usize = 0;
    while i < n
        invariant
            i <= n,
            out@.len() == i,
            forall|j: int|
                0 <= j < i ==> out@[j] == (if j < s@.len() {
                    s@[j]
                } else {
                    0u8
                }),
        decreases n - i,
    {
        if i < s.len() {
            out.push(s[i]);
        } else {
            out.push(0);
        }
        i = i + 1;
    }
    *buf = out;
}

/// Index of the first NUL byte in `s`, if any.
pub open spec fn first_nul(s: Seq<u8>) -> Option<int>
    decreases s.len(),
{
    if s.len() == 0 {
        None
    } else if s[0] == 0 {
        Some(0)
    } else {
        match first_nul(s.drop_first()) {
            Some(i) => Some(i + 1),
            None => None,
        }
    }
}

/// `first_nul` names the position of a NUL byte preceded by none.
proof fn lemma_first_nul_is(s: Seq<u8>, i: int)
    requires
        0 <= i < s.len(),
        s[i] == 0,
        forall|j: int| 0 <= j < i ==> s[j] != 0,
    ensures
        first_nul(s) == Some(i),
    decreases s.len(),
{
    if i == 0 {
    } else {
        let t = s.drop_first();
        assert(forall|j: int| 0 <= j < t.len() ==> t[j] == s[j + 1]);
        lemma_first_nul_is(t, i - 1);
    }
}

/// A byte string without a NUL has no `first_nul`.
proof fn lemma_first_nul_none(s: Seq<u8>)
    requires
        forall|j: int| 0 <= j < s.len() ==> s[j] != 0,
    ensures
        first_nul(s) is None,
    decreases s.len(),
{
    if s.len() > 0 {
        let t = s.drop_first();
        assert(forall|j: int| 0 <= j < t.len() ==> t[j] == s[j + 1]);
        lemma_first_nul_none(t);
    }
}

/// A UTF-8 continuation byte.
pub open spec fn is_utf8_tail(b: u8) -> bool {
    0x80 <= b <= 0xBF
}

/// Whether `s` is valid UTF-8: a sequence of one-byte characters (below
/// 0x80), two-byte sequences (lead 0xC2–0xDF), three-byte sequences (leads
/// 0xE0–0xEF, with the narrowed second byte that rules out overlong forms
/// after 0xE0 and surrogates after 0xED), and four-byte sequences (leads
/// 0xF0–0xF4, with the narrowed second byte that rules out overlong forms
/// after 0xF0 and anything past U+10FFFF after 0xF4).
pub open spec fn is_utf8(s: Seq<u8>) -> bool
    decreases s.len(),
{
    if s.len() == 0 {
        true
    } else {
        let b0 = s[0];
        if b0 < 0x80 {
            is_utf8(s.skip(1))
        } else if b0 < 0xC2 {
            false
        } else if b0 <= 0xDF {
            s.len() >= 2 && is_utf8_tail(s[1]) && is_utf8(s.skip(2))
        } else if b0 == 0xE0 {
            s.len() >= 3 && 0xA0 <= s[1] <= 0xBF && is_utf8_tail(s[2]) && is_utf8(s.skip(3))
        } else if b0 == 0xED {
            s.len() >= 3 && 0x80 <= s[1] <= 0x9F && is_utf8_tail(s[2]) && is_utf8(s.skip(3))
        } else if b0 <= 0xEF {
            s.len() >= 3 && is_utf8_tail(s[1]) && is_utf8_tail(s[2]) && is_utf8(s.skip(3))
        } else if b0 == 0xF0 {
            s.len() >= 4 && 0x90 <= s[1] <= 0xBF && is_utf8_tail(s[2]) && is_utf8_tail(s[3])
                && is_utf8(s.skip(4))
        } else if b0 <= 0xF3 {
            s.len() >= 4 && is_utf8_tail(s[1]) && is_utf8_tail(s[2]) && is_utf8_tail(s[3])
                && is_utf8(s.skip(4))
        } else if b0 == 0xF4 {
            s.len() >= 4 && 0x80 <= s[1] <= 0x8F && is_utf8_tail(s[2]) && is_utf8_tail(s[3])
                && is_utf8(s.skip(4))
        } else {
            false
        }
    }
}

/// Decides UTF-8 validity of `v`.
pub fn utf8_valid(v: &Vec<u8>) -> (r: bool)
    ensures
        r == is_utf8(v@),
{
    let n = v.len();
    let mut i: usize = 0;
    proof {
        assert(v@.skip(0) =~= v@);
    }
    while i < n
        invariant
            n == v@.len(),
            i <= n,
            is_utf8(v@) == is_utf8(v@.skip(i as int)),
        decreases n - i,
    {
        proof {
            assert(v@.skip(i as int)[0] == v@[i as int]);
        }
        let b0 = v[i];
        if b0 < 0x80 {
            proof {
                assert(v@.skip(i as int).skip(1) =~= v@.skip(i as int + 1));
            }
            i = i + 1;
        } else if b0 < 0xC2 {
            return false;
        } else if b0 <= 0xDF {
            if n - i < 2 {
                return false;
            }
            proof {
                assert(v@.skip(i as int)[1] == v@[i as int + 1]);
            }
            if !(0x80 <= v[i + 1] && v[i + 1] <= 0xBF) {
                return false;
            }
            proof {
                assert(v@.skip(i as int).skip(2) =~= v@.skip(i as int + 2));
            }
            i = i + 2;
        } else if b0 <= 0xEF {
            if n - i < 3 {
                return false;
            }
            proof {
                assert(v@.skip(i as int)[1] == v@[i as int + 1]);
                assert(v@.skip(i as int)[2] == v@[i as int + 2]);
            }
            let low: u8 = if b0 == 0xE0 {
                0xA0
            } else {
                0x80
            };
            let high: u8 = if b0 == 0xED {
                0x9F
            } else {
                0xBF
            };
            if !(low <= v[i + 1] && v[i + 1] <= high) {
                return false;
            }
            if !(0x80 <= v[i + 2] && v[i + 2] <= 0xBF) {
                return false;
            }
            proof {
                assert(v@.skip(i as int).skip(3) =~= v@.skip(i as int + 3));
            }
            i = i + 3;
        } else if b0 <= 0xF4 {
            if n - i < 4 {
                return false;
            }
            proof {
                assert(v@.skip(i as int)[1] == v@[i as int + 1]);
                assert(v@.skip(i as int)[2] == v@[i as int + 2]);
                assert(v@.skip(i as int)[3] == v@[i as int + 3]);
            }
            let low: u8 = if b0 == 0xF0 {
                0x90
            } else {
                0x80
            };
            let high: u8 = if b0 == 0xF4 {
                0x8F
            } else {
                0xBF
            };
            if !(low <= v[i + 1] && v[i + 1] <= high) {
                return false;
            }
            if !(0x80 <= v[i + 2] && v[i + 2] <= 0xBF) {
                return false;
            }
            if !(0x80 <= v[i + 3] && v[i + 3] <= 0xBF) {
                return false;
            }
            proof {
                assert(v@.skip(i as int).skip(4) =~= v@.skip(i as int + 4));
            }
            i = i + 4;
        } else {
            return false;
        }
    }
    proof {
        assert(v@.skip(i as int).len() == 0);
    }
    true
}

/// A value standing for raw C text, recoverable as a plain byte string.
pub trait Rustify {
    /// The byte string this value stands for: its contents up to the
    /// terminator, or the failure a malformed value is diagnosed with.
    spec fn rustify_spec(&self) -> Result<Seq<u8>, LayerError>;

    fn to_rust_string(&self) -> (r: Result<Vec<u8>, LayerError>)
        ensures
            match self.rustify_spec() {
                Ok(s) => r matches Ok(v) && v@ == s,
                Err(e) => r matches Err(e2) && e2 == e,
            },
    ;
}

/// The raw contents of a C character buffer as handed across the ABI: plain
/// bytes, well formed when a NUL terminator is present and the text before
/// it is valid UTF-8.
pub struct CharBuffer {
    pub bytes: Vec<u8>,
}

impl Rustify for CharBuffer {
    /// The bytes before the first NUL, provided they are valid UTF-8; an
    /// unterminated buffer, or one whose text is not UTF-8, is malformed
    /// input and diagnosed as `ValidationFailure`.
    open spec fn rustify_spec(&self) -> Result<Seq<u8>, LayerError> {
        match first_nul(self.bytes@) {
            Some(i) => if is_utf8(self.bytes@.take(i)) {
                Ok(self.bytes@.take(i))
            } else {
                Err(LayerError::ValidationFailure)
            },
            None => Err(LayerError::ValidationFailure),
        }
    }

    fn to_rust_string(&self) -> (r: Result<Vec<u8>, LayerError>) {
        let n = self.bytes.len();
        let mut i: usize = 0;
        while i < n
            invariant
                n == self.bytes@.len(),
                i <= n,
                forall|j: int| 0 <= j < i ==> self.bytes@[j] != 0,
            decreases n - i,
        {
            if self.bytes[i] == 0 {
                proof {
                    lemma_first_nul_is(self.bytes@, i as int);
                }
                let mut v: Vec<u8> = Vec::new();
                let mut j: usize = 0;
                while j < i
                    invariant
                        j <= i,
                        i < self.bytes@.len(),
                        v@.len() == j,
                        forall|k: int| 0 <= k < j ==> v@[k] == self.bytes@[k],
                    decreases i - j,
                {
                    v.push(self.bytes[j]);
                    j = j + 1;
                }
                proof {
                    assert(v@ =~= self.bytes@.take(i as int));
                }
                if utf8_valid(&v) {
                    return Ok(v);
                } else {
                    return Err(LayerError::ValidationFailure);
                }
            }
            i = i + 1;
        }
        proof {
            lemma_first_nul_none(self.bytes@);
        }
        Err(LayerError::ValidationFailure)
    }
}

} // verus!
