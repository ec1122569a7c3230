use vstd::prelude::*;
use vstd::string::StringSliceAdditionalSpecFns;
use vstd::utf8::*;

verus! {

broadcast use vstd::string::group_string_axioms;

/// The bytes of a character sequence in UTF-8.
pub open spec fn bytes_of(s: Seq<char>) -> Seq<u8> {
    encode_utf8(s)
}

/// A byte span `[start, end)` of `code` that can be cut out as text.
pub open spec fn valid_span(code: Seq<char>, start: int, end: int) -> bool {
    &&& start <= end
    &&& is_char_boundary(bytes_of(code), start)
    &&& is_char_boundary(bytes_of(code), end)
}

/// The text that a byte span of `code` covers; a span that does not fall on
/// character boundaries inside the buffer resolves to the empty text.
pub open spec fn span_text(code: Seq<char>, start: int, end: int) -> Seq<char> {
    if valid_span(code, start, end) {
        decode_utf8(bytes_of(code).subrange(start, end))
    } else {
        Seq::empty()
    }
}

/// Whether `needle` occurs in `hay` as a contiguous run.
pub open spec fn contains_run(hay: Seq<u8>, needle: Seq<u8>) -> bool {
    exists|i: int| 0 <= i && i + needle.len() <= hay.len() && #[trigger] hay.subrange(i, i + needle.len()) == needle
}

/// The value of an optional string.
pub open spec fn opt_view(o: Option<String>) -> Option<Seq<char>> {
    match o {
        Some(s) => Some(s@),
        None => None,
    }
}

/// The values of a sequence of strings.
pub open spec fn texts(v: Seq<String>) -> Seq<Seq<char>> {
    v.map_values(|s: String| s@)
}

/// Compares two strings by their characters.
pub fn same_text(a: &str, b: &str) -> (r: bool)
    ensures
        r == (a@ == b@),
{
    let x = a.as_bytes();
    let y = b.as_bytes();
    proof {
        encode_utf8_decode_utf8(a@);
        encode_utf8_decode_utf8(b@);
    }
    if x.len() != y.len() {
        return false;
    }
    let mut i: usize = 0;
    while i < x.len()
        invariant
            x@ == a.spec_bytes(),
            y@ == b.spec_bytes(),
            x@.len() == y@.len(),
            i <= x@.len(),
            forall|j: int| 0 <= j < i ==> x@[j] == y@[j],
        decreases x@.len() - i,
    {
        if x[i] != y[i] {
            return false;
        }
        i = i + 1;
    }
    assert(x@ =~= y@);
    true
}

/// Cuts the text of the byte span `[start, end)` out of `code`.
pub fn span_of(code: &str, start: usize, end: usize) -> (r: String)
    ensures
        r@ == span_text(code@, start as int, end as int),
{
    broadcast use encode_utf8_valid_utf8, valid_utf8_split, is_char_boundary_start_end_of_seq;

    let bytes = Ghost(code.spec_bytes());
    if start <= end && code.is_char_boundary(start) && code.is_char_boundary(end) {
        let (left, _rest) = code.split_at(end);
        proof {
            let lb = left.spec_bytes();
            assert(valid_utf8(bytes@));
            assert(valid_utf8(lb));
            if 0 < start && start < end {
                is_char_boundary_iff_not_is_continuation_byte(bytes@, start as int);
                is_char_boundary_iff_not_is_continuation_byte(lb, start as int);
            } else if start == end {
                assert(lb.len() == end);
            }
        }
        let (_head, mid) = left.split_at(start);
        proof {
            assert(mid.spec_bytes() =~= bytes@.subrange(start as int, end as int));
            encode_utf8_decode_utf8(mid@);
        }
        mid.to_owned()
    } else {
        String::new()
    }
}

/// Finds whether the bytes of `marker` occur in the bytes of `s`.
pub fn mentions(s: &str, marker: &str) -> (r: bool)
    ensures
        r == contains_run(bytes_of(s@), bytes_of(marker@)),
{
    let hay = s.as_bytes();
    let needle = marker.as_bytes();
    if needle.len() == 0 {
        assert(hay@.subrange(0int, 0int + needle@.len()) =~= needle@);
        return true;
    }
    if needle.len() > hay.len() {
        return false;
    }
    let n: usize = hay.len();
    let last: usize = n - needle.len();
    let mut i: usize = 0;
    while i <= last
        invariant
            hay@ == bytes_of(s@),
            needle@ == bytes_of(marker@),
            last == hay@.len() - needle@.len(),
            n == hay@.len(),
            needle@.len() >= 1,
            forall|k: int| 0 <= k < i ==> #[trigger] hay@.subrange(k, k + needle@.len()) != needle@,
        decreases last + 1 - i,
    {
        let mut j: usize = 0;
        let mut same = true;
        while j < needle.len()
            invariant
                hay@ == bytes_of(s@),
                needle@ == bytes_of(marker@),
                i <= last,
                last == hay@.len() - needle@.len(),
                n == hay@.len(),
                needle@.len() >= 1,
                j <= needle@.len(),
                same == (forall|m: int| 0 <= m < j ==> hay@[i + m] == needle@[m]),
            decreases needle@.len() - j,
        {
            if hay[i + j] != needle[j] {
                same = false;
            }
            j = j + 1;
        }
        if same {
            assert(hay@.subrange(i as int, i + needle@.len()) =~= needle@);
            return true;
        }
        assert(hay@.subrange(i as int, i + needle@.len()) != needle@) by {
            let m = choose|m: int| 0 <= m < needle@.len() && hay@[i + m] != needle@[m];
            assert(hay@.subrange(i as int, i + needle@.len())[m] != needle@[m]);
        }
        i = i + 1;
    }
    false
}

} // verus!
