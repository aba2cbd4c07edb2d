//! The line grammar of the signaling protocol: `COMMAND ARGUMENT [ignored...]`.
//!
//! Words are separated by runs of ASCII whitespace only. The grammar is stated
//! over the UTF-8 bytes of the line: an ASCII byte never occurs inside the
//! encoding of another character, so splitting on whitespace bytes is the same
//! as splitting on whitespace characters.

use vstd::prelude::*;
use vstd::string::*;
use vstd::utf8::*;

verus! {

/// The bytes that `u8::is_ascii_whitespace` accepts: space, tab, line feed,
/// form feed and carriage return.
pub open spec fn is_ascii_space(c: u8) -> bool {
    c == 0x20 || c == 0x09 || c == 0x0a || c == 0x0c || c == 0x0d
}

/// The first position at or after `i` that holds no whitespace byte, or the
/// end of `b`.
pub open spec fn skip_space(b: Seq<u8>, i: nat) -> nat
    decreases b.len() - i,
{
    if i < b.len() && is_ascii_space(b[i as int]) {
        skip_space(b, i + 1)
    } else {
        i
    }
}

/// The first position at or after `i` that holds a whitespace byte, or the
/// end of `b`.
pub open spec fn word_end(b: Seq<u8>, i: nat) -> nat
    decreases b.len() - i,
{
    if i < b.len() && !is_ascii_space(b[i as int]) {
        word_end(b, i + 1)
    } else {
        i
    }
}

/// Where the word of index `k` starts (counting from 0); at or past the end
/// of `b` when the line has no such word.
pub open spec fn word_start(b: Seq<u8>, k: nat) -> nat
    decreases k,
{
    if k == 0 {
        skip_space(b, 0)
    } else {
        skip_space(b, word_end(b, word_start(b, (k - 1) as nat)))
    }
}

/// The line holds at least `k + 1` words.
pub open spec fn has_word(b: Seq<u8>, k: nat) -> bool {
    word_start(b, k) < b.len()
}

/// The bytes of the word of index `k`.
pub open spec fn word(b: Seq<u8>, k: nat) -> Seq<u8> {
    b.subrange(word_start(b, k) as int, word_end(b, word_start(b, k)) as int)
}

/// What `parse` returns for a line with the bytes `b`: the first two words,
/// or nothing when there are fewer than two.
pub open spec fn parse_spec(b: Seq<u8>) -> Option<(Seq<u8>, Seq<u8>)> {
    if has_word(b, 1) {
        Some((word(b, 0), word(b, 1)))
    } else {
        None
    }
}

proof fn lemma_skip_space(b: Seq<u8>, i: nat)
    requires
        i <= b.len(),
    ensures
        i <= skip_space(b, i) <= b.len(),
        skip_space(b, i) < b.len() ==> !is_ascii_space(b[skip_space(b, i) as int]),
    decreases b.len() - i,
{
    if i < b.len() && is_ascii_space(b[i as int]) {
        lemma_skip_space(b, i + 1);
    }
}

proof fn lemma_word_end(b: Seq<u8>, i: nat)
    requires
        i <= b.len(),
    ensures
        i <= word_end(b, i) <= b.len(),
        forall|k: int| i <= k < word_end(b, i) ==> !is_ascii_space(#[trigger] b[k]),
        i < b.len() && !is_ascii_space(b[i as int]) ==> word_end(b, i) > i,
        word_end(b, i) < b.len() ==> is_ascii_space(b[word_end(b, i) as int]),
    decreases b.len() - i,
{
    if i < b.len() && !is_ascii_space(b[i as int]) {
        lemma_word_end(b, i + 1);
    }
}

proof fn lemma_word_start_bound(b: Seq<u8>, k: nat)
    ensures
        word_start(b, k) <= b.len(),
    decreases k,
{
    if k == 0 {
        lemma_skip_space(b, 0);
    } else {
        let prev = word_start(b, (k - 1) as nat);
        lemma_word_start_bound(b, (k - 1) as nat);
        lemma_word_end(b, prev);
        lemma_skip_space(b, word_end(b, prev));
    }
}

/// Every word the grammar finds is a token: non-empty and free of ASCII
/// whitespace. Words come in order, so a line with a word of index `k > 0`
/// also has the word before it, which ends before it starts.
pub proof fn lemma_words_are_tokens(b: Seq<u8>, k: nat)
    requires
        has_word(b, k),
    ensures
        word(b, k).len() > 0,
        forall|j: int| 0 <= j < word(b, k).len() ==> !is_ascii_space(#[trigger] word(b, k)[j]),
        k > 0 ==> has_word(b, (k - 1) as nat),
        k > 0 ==> word_end(b, word_start(b, (k - 1) as nat)) < word_start(b, k),
{
    let s = word_start(b, k);
    lemma_word_start_bound(b, k);
    if k == 0 {
        lemma_skip_space(b, 0);
    } else {
        let prev = word_start(b, (k - 1) as nat);
        lemma_word_start_bound(b, (k - 1) as nat);
        lemma_word_end(b, prev);
        let e = word_end(b, prev);
        lemma_skip_space(b, e);
        assert(e < b.len() ==> is_ascii_space(b[e as int]));
    }
    lemma_skip_space(b, if k == 0 { 0 } else { word_end(b, word_start(b, (k - 1) as nat)) });
    lemma_word_end(b, s);
    assert forall|j: int| 0 <= j < word(b, k).len() implies !is_ascii_space(
        #[trigger] word(b, k)[j],
    ) by {
        assert(word(b, k)[j] == b[s + j]);
    }
}

fn is_space_byte(c: u8) -> (r: bool)
    ensures
        r == is_ascii_space(c),
{
    c == 0x20 || c == 0x09 || c == 0x0a || c == 0x0c || c == 0x0d
}

fn skip_space_from(b: &[u8], start: usize) -> (r: usize)
    requires
        start <= b@.len(),
    ensures
        r as nat == skip_space(b@, start as nat),
        start <= r <= b@.len(),
        forall|k: int| start <= k < r ==> is_ascii_space(#[trigger] b@[k]),
        r < b@.len() ==> !is_ascii_space(b@[r as int]),
{
    let mut i: usize = start;
    while i < b.len() && is_space_byte(b[i])
        invariant
            start <= i <= b@.len(),
            skip_space(b@, i as nat) == skip_space(b@, start as nat),
            forall|k: int| start <= k < i ==> is_ascii_space(#[trigger] b@[k]),
        decreases b@.len() - i,
    {
        i = i + 1;
    }
    i
}

fn word_end_from(b: &[u8], start: usize) -> (r: usize)
    requires
        start <= b@.len(),
    ensures
        r as nat == word_end(b@, start as nat),
        start <= r <= b@.len(),
        forall|k: int| start <= k < r ==> !is_ascii_space(#[trigger] b@[k]),
        r < b@.len() ==> is_ascii_space(b@[r as int]),
{
    let mut i: usize = start;
    while i < b.len() && !is_space_byte(b[i])
        invariant
            start <= i <= b@.len(),
            word_end(b@, i as nat) == word_end(b@, start as nat),
            forall|k: int| start <= k < i ==> !is_ascii_space(#[trigger] b@[k]),
        decreases b@.len() - i,
    {
        i = i + 1;
    }
    i
}

/// In valid UTF-8, the byte that follows an ASCII byte starts a character.
proof fn lemma_after_ascii_not_continuation(b: Seq<u8>, i: int)
    requires
        valid_utf8(b),
        0 < i < b.len(),
        b[i - 1] <= 0x7f,
    ensures
        !is_continuation_byte(b[i]),
    decreases b.len(),
{
    let l = length_of_first_scalar(b);
    let rest = pop_first_scalar(b);
    assert(valid_first_scalar(b) && valid_utf8(rest));
    assert(1 <= l <= b.len());
    assert(rest.len() == b.len() - l);
    if i - 1 < l {
        assert(i == l);
        assert(valid_first_scalar(rest));
        assert(b[i] == rest[0]);
    } else {
        assert(rest[i - l - 1] == b[i - 1]);
        assert(rest[i - l] == b[i]);
        lemma_after_ascii_not_continuation(rest, i - l);
    }
}

/// A position at either end, at an ASCII byte, or right after one, is a
/// character boundary.
proof fn lemma_ascii_boundary(b: Seq<u8>, i: int)
    requires
        valid_utf8(b),
        0 <= i <= b.len(),
        i == 0 || i == b.len() || b[i] <= 0x7f || b[i - 1] <= 0x7f,
    ensures
        is_char_boundary(b, i),
{
    if i == 0 || i == b.len() {
        is_char_boundary_start_end_of_seq(b);
    } else {
        if b[i] > 0x7f {
            lemma_after_ascii_not_continuation(b, i);
        }
        is_char_boundary_iff_not_is_continuation_byte(b, i);
    }
}

/// Whether two strings hold the same characters, compared byte by byte.
pub fn same_text(a: &str, b: &str) -> (r: bool)
    ensures
        r == (a@ == b@),
{
    let x = a.as_bytes();
    let y = b.as_bytes();
    if x.len() != y.len() {
        return false;
    }
    let mut i: usize = 0;
    while i < x.len()
        invariant
            i <= x@.len(),
            x@.len() == y@.len(),
            x@ == a.spec_bytes(),
            y@ == b.spec_bytes(),
            forall|k: int| 0 <= k < i ==> x@[k] == y@[k],
        decreases x@.len() - i,
    {
        if x[i] != y[i] {
            return false;
        }
        i = i + 1;
    }
    proof {
        assert(x@ =~= y@);
        encode_utf8_decode_utf8(a@);
        encode_utf8_decode_utf8(b@);
    }
    true
}

/// Splits a line into its first two whitespace-separated words.
///
/// Returns `None` when the line holds fewer than two words; words after the
/// second are ignored. Only ASCII whitespace separates words.
pub fn parse(message: &str) -> (r: Option<(&str, &str)>)
    ensures
        match r {
            Some((command, argument)) => parse_spec(message.spec_bytes()) == Some(
                (command.spec_bytes(), argument.spec_bytes()),
            ),
            None => parse_spec(message.spec_bytes()) is None,
        },
{
    let bytes = message.as_bytes();
    let ghost b = message.spec_bytes();
    let s0 = skip_space_from(bytes, 0);
    let e0 = word_end_from(bytes, s0);
    let s1 = skip_space_from(bytes, e0);
    assert(bytes@ == b);
    assert(word_start(b, 0) == s0);
    assert(word_start(b, 1) == skip_space(b, word_end(b, word_start(b, 0))));
    if s1 >= bytes.len() {
        return None;
    }
    let e1 = word_end_from(bytes, s1);
    proof {
        encode_utf8_valid_utf8(message@);
        lemma_ascii_boundary(b, s0 as int);
    }
    let (_, rest0) = message.split_at(s0);
    proof {
        encode_utf8_valid_utf8(rest0@);
        assert(rest0.spec_bytes() =~= b.subrange(s0 as int, b.len() as int));
        lemma_ascii_boundary(rest0.spec_bytes(), (e0 - s0) as int);
    }
    let (command, rest1) = rest0.split_at(e0 - s0);
    proof {
        encode_utf8_valid_utf8(rest1@);
        assert(rest1.spec_bytes() =~= b.subrange(e0 as int, b.len() as int));
        lemma_ascii_boundary(rest1.spec_bytes(), (s1 - e0) as int);
    }
    let (_, rest2) = rest1.split_at(s1 - e0);
    proof {
        encode_utf8_valid_utf8(rest2@);
        assert(rest2.spec_bytes() =~= b.subrange(s1 as int, b.len() as int));
        lemma_ascii_boundary(rest2.spec_bytes(), (e1 - s1) as int);
    }
    let (argument, _) = rest2.split_at(e1 - s1);
    assert(command.spec_bytes() =~= word(b, 0));
    assert(argument.spec_bytes() =~= word(b, 1));
    Some((command, argument))
}

} // verus!
