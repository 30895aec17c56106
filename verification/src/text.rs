use vstd::prelude::*;
use vstd::string::StrSliceExecFns;
use vstd::utf8::{
    decode_utf8, decode_utf8_encode_utf8, decode_utf8_split, encode_utf8, encode_utf8_decode_utf8,
    encode_utf8_valid_utf8, is_char_boundary, valid_utf8_split,
};

verus! {

/// The pieces of `s` between occurrences of `sep`, in order.  There is
/// always at least one piece; an occurrence of `sep` at either end gives an
/// empty piece there.
pub open spec fn split_by(s: Seq<char>, sep: char) -> Seq<Seq<char>>
    decreases s.len(),
{
    if s.len() == 0 {
        seq![Seq::<char>::empty()]
    } else {
        let r = split_by(s.drop_last(), sep);
        if s.last() == sep {
            r.push(Seq::<char>::empty())
        } else {
            r.update(r.len() - 1, r.last().push(s.last()))
        }
    }
}

/// Whether a string can be cut after its first `n` bytes (in UTF-8): `n`
/// is at most its byte length and falls on a character boundary.
pub open spec fn can_cut(s: Seq<char>, n: int) -> bool {
    is_char_boundary(encode_utf8(s), n)
}

/// The characters that the first `n` bytes of `s` encode.
pub open spec fn head_bytes(s: Seq<char>, n: int) -> Seq<char> {
    decode_utf8(encode_utf8(s).subrange(0, n))
}

/// The characters that the bytes of `s` after the first `n` encode.
pub open spec fn tail_bytes(s: Seq<char>, n: int) -> Seq<char> {
    decode_utf8(encode_utf8(s).subrange(n, encode_utf8(s).len() as int))
}

/// Cutting a string after `n` bytes splits its UTF-8 bytes there: the head
/// encodes to the first `n` bytes, the tail to the rest, and the two put
/// back together give the string.
pub proof fn law_cut_splits_bytes(s: Seq<char>, n: int)
    requires
        can_cut(s, n),
    ensures
        0 <= n <= encode_utf8(s).len(),
        encode_utf8(head_bytes(s, n)) == encode_utf8(s).subrange(0, n),
        encode_utf8(tail_bytes(s, n)) == encode_utf8(s).subrange(n, encode_utf8(s).len() as int),
        head_bytes(s, n) + tail_bytes(s, n) == s,
{
    let bytes = encode_utf8(s);
    encode_utf8_valid_utf8(s);
    assert(0 <= n <= bytes.len());
    valid_utf8_split(bytes, n);
    decode_utf8_encode_utf8(bytes.subrange(0, n));
    decode_utf8_encode_utf8(bytes.subrange(n, bytes.len() as int));
    decode_utf8_split(bytes, n);
    encode_utf8_decode_utf8(s);
}

proof fn lemma_split_by_nonempty(s: Seq<char>, sep: char)
    ensures
        split_by(s, sep).len() >= 1,
    decreases s.len(),
{
    if s.len() > 0 {
        lemma_split_by_nonempty(s.drop_last(), sep);
    }
}

/// Splits `s` at every occurrence of `sep`, as `str::split` with a `char`
/// pattern does.
pub fn split_on<'a>(s: &'a str, sep: char) -> (parts: Vec<&'a str>)
    ensures
        parts@.len() == split_by(s@, sep).len(),
        forall|i: int| 0 <= i < parts@.len() ==> (#[trigger] parts@[i])@ == split_by(s@, sep)[i],
{
    let n = s.unicode_len();
    let mut parts: Vec<&'a str> = Vec::new();
    let mut start: usize = 0;
    let mut i: usize = 0;
    proof {
        assert(s@.take(0) =~= Seq::<char>::empty());
        assert(s@.subrange(0, 0) =~= Seq::<char>::empty());
    }
    while i < n
        invariant
            n == s@.len(),
            start <= i <= n,
            parts@.len() + 1 == split_by(s@.take(i as int), sep).len(),
            forall|j: int|
                0 <= j < parts@.len() ==> (#[trigger] parts@[j])@ == split_by(
                    s@.take(i as int),
                    sep,
                )[j],
            split_by(s@.take(i as int), sep).last() == s@.subrange(start as int, i as int),
        decreases n - i,
    {
        let c = s.get_char(i);
        let ghost t = s@.take(i as int);
        let ghost t2 = s@.take(i + 1);
        proof {
            assert(t2.drop_last() =~= t);
            assert(t2.last() == c);
            lemma_split_by_nonempty(t, sep);
        }
        if c == sep {
            let piece = s.substring_char(start, i);
            parts.push(piece);
            start = i + 1;
            proof {
                assert(s@.subrange(start as int, i + 1) =~= Seq::<char>::empty());
                assert forall|j: int| 0 <= j < parts@.len() implies (#[trigger] parts@[j])@
                    == split_by(t2, sep)[j] by {
                    if j < parts@.len() - 1 {
                        assert(split_by(t2, sep)[j] == split_by(t, sep)[j]);
                    }
                }
            }
        } else {
            proof {
                assert(s@.subrange(start as int, i as int).push(c) =~= s@.subrange(
                    start as int,
                    i + 1,
                ));
                assert forall|j: int| 0 <= j < parts@.len() implies (#[trigger] parts@[j])@
                    == split_by(t2, sep)[j] by {
                    assert(split_by(t2, sep)[j] == split_by(t, sep)[j]);
                }
            }
        }
        i = i + 1;
    }
    let last = s.substring_char(start, n);
    parts.push(last);
    proof {
        assert(s@.take(n as int) =~= s@);
        assert forall|j: int| 0 <= j < parts@.len() implies (#[trigger] parts@[j])@ == split_by(
            s@,
            sep,
        )[j] by {
            if j == parts@.len() - 1 {
                lemma_split_by_nonempty(s@, sep);
            }
        }
    }
    parts
}

/// Whether `s` can be cut after its first `n` bytes, as
/// `str::is_char_boundary` tells.
pub fn can_cut_at(s: &str, n: usize) -> (ok: bool)
    ensures
        ok == can_cut(s@, n as int),
{
    s.is_char_boundary(n)
}

/// Cuts `s` after its first `n` bytes, as `&s[..n]` and `&s[n..]` do.
pub fn cut_at<'a>(s: &'a str, n: usize) -> (halves: (&'a str, &'a str))
    requires
        can_cut(s@, n as int),
    ensures
        halves.0@ == head_bytes(s@, n as int),
        halves.1@ == tail_bytes(s@, n as int),
{
    let halves = s.split_at(n);
    proof {
        encode_utf8_decode_utf8(halves.0@);
        encode_utf8_decode_utf8(halves.1@);
    }
    halves
}

/// Appends a character to a string, with `String::push`; the contract
/// claims what its documentation says: the character is added at the end.
#[verifier::external_body]
pub(crate) fn push_char(s: &mut String, c: char)
    ensures
        final(s)@ == old(s)@.push(c),
{
    s.push(c)
}

} // verus!
