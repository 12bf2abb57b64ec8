//! Small string utilities: strings are handled by their sequence of
//! characters, which is what the contracts of this crate speak of.

use vstd::prelude::*;

verus! {

/// The characters of `s`, in order.
pub fn to_chars(s: &str) -> (v: Vec<char>)
    ensures
        v@ == s@,
{
    let mut v: Vec<char> = Vec::new();
    for c in it: s.chars()
        invariant
            it.seq() == s@,
            v@ == s@.take(it.index() as int),
    {
        v.push(c);
    }
    v
}

/// Whether `v[at..at + w.len()]` exists and equals `w`.
pub fn matches_at(v: &Vec<char>, at: usize, w: &Vec<char>) -> (b: bool)
    ensures
        b == (at + w@.len() <= v@.len() && v@.subrange(at as int, at + w@.len()) == w@),
{
    if at > v.len() || w.len() > v.len() - at {
        return false;
    }
    let mut i: usize = 0;
    while i < w.len()
        invariant
            at + w@.len() <= v@.len() <= usize::MAX,
            i <= w@.len(),
            forall|j: int| 0 <= j < i ==> v@[at + j] == w@[j],
        decreases w@.len() - i,
    {
        if v[at + i] != w[i] {
            assert(v@.subrange(at as int, at + w@.len())[i as int] != w@[i as int]);
            return false;
        }
        i += 1;
    }
    assert(v@.subrange(at as int, at + w@.len()) =~= w@);
    true
}

/// Equality of two strings, character by character.
pub fn str_eq(a: &str, b: &str) -> (r: bool)
    ensures
        r == (a@ == b@),
{
    let x = to_chars(a);
    let y = to_chars(b);
    if x.len() != y.len() {
        return false;
    }
    let r = matches_at(&x, 0, &y);
    assert(x@.subrange(0, y@.len() as int) =~= x@);
    r
}

/// The character of a decimal digit.
pub open spec fn digit_char(d: nat) -> char
    recommends
        d < 10,
{
    if d == 0 {
        '0'
    } else if d == 1 {
        '1'
    } else if d == 2 {
        '2'
    } else if d == 3 {
        '3'
    } else if d == 4 {
        '4'
    } else if d == 5 {
        '5'
    } else if d == 6 {
        '6'
    } else if d == 7 {
        '7'
    } else if d == 8 {
        '8'
    } else {
        '9'
    }
}

/// A number in decimal, without leading zeros.
pub open spec fn decimal_spec(n: nat) -> Seq<char>
    decreases n,
{
    if n < 10 {
        seq![digit_char(n)]
    } else {
        decimal_spec(n / 10).push(digit_char(n % 10))
    }
}

/// The characters of an optional string.
pub open spec fn opt_view(s: Option<String>) -> Option<Seq<char>> {
    match s {
        Some(text) => Some(text@),
        None => None,
    }
}

/// A decimal digit as a string.
fn digit_str(d: u32) -> (s: &'static str)
    requires
        d < 10,
    ensures
        s@ == seq![digit_char(d as nat)],
{
    proof {
        reveal_strlit("0");
        reveal_strlit("1");
        reveal_strlit("2");
        reveal_strlit("3");
        reveal_strlit("4");
        reveal_strlit("5");
        reveal_strlit("6");
        reveal_strlit("7");
        reveal_strlit("8");
        reveal_strlit("9");
    }
    let s = if d == 0 {
        "0"
    } else if d == 1 {
        "1"
    } else if d == 2 {
        "2"
    } else if d == 3 {
        "3"
    } else if d == 4 {
        "4"
    } else if d == 5 {
        "5"
    } else if d == 6 {
        "6"
    } else if d == 7 {
        "7"
    } else if d == 8 {
        "8"
    } else {
        "9"
    };
    assert(s@ =~= seq![digit_char(d as nat)]);
    s
}

/// Writes a number in decimal.
pub fn decimal(n: u32) -> (s: String)
    ensures
        s@ == decimal_spec(n as nat),
    decreases n,
{
    if n < 10 {
        digit_str(n).to_owned()
    } else {
        let mut s = decimal(n / 10);
        s.append(digit_str(n % 10));
        assert(s@ =~= decimal_spec(n as nat / 10).push(digit_char(n as nat % 10)));
        s
    }
}

/// Where the last `c` of `s` is, given a `c` with none after it.
pub proof fn lemma_index_of_last(s: Seq<char>, c: char, at: int)
    requires
        0 <= at < s.len(),
        s[at] == c,
        forall|j: int| at < j < s.len() ==> s[j] != c,
    ensures
        s.index_of_last(c) == Some(at),
{
    s.index_of_last_ensures(c);
    assert(s.contains(c));
}

/// Whether a character is white space in the sense of Unicode.
pub uninterp spec fn is_whitespace_spec(c: char) -> bool;

/// `char::is_whitespace` of std: whether the character has the Unicode
/// property `White_Space`.
#[verifier::external_body]
fn is_whitespace(c: char) -> (b: bool)
    ensures
        b == is_whitespace_spec(c),
{
    c.is_whitespace()
}

/// `s` without the white space at its start.
pub open spec fn trim_start_spec(s: Seq<char>) -> Seq<char>
    decreases s.len(),
{
    if s.len() > 0 && is_whitespace_spec(s.first()) {
        trim_start_spec(s.drop_first())
    } else {
        s
    }
}

/// `s` without the white space at its end.
pub open spec fn trim_end_spec(s: Seq<char>) -> Seq<char>
    decreases s.len(),
{
    if s.len() > 0 && is_whitespace_spec(s.last()) {
        trim_end_spec(s.drop_last())
    } else {
        s
    }
}

/// `s` without the white space at its start and at its end.
pub open spec fn trim_spec(s: Seq<char>) -> Seq<char> {
    trim_end_spec(trim_start_spec(s))
}

/// The pieces of `s` between its separators: one more than there are
/// separators, empty pieces included.
pub open spec fn split_spec(s: Seq<char>, sep: char) -> Seq<Seq<char>>
    decreases s.len(),
{
    match s.index_of_last(sep) {
        Some(at) => if 0 <= at < s.len() {
            split_spec(s.take(at), sep).push(s.skip(at + 1))
        } else {
            seq![s]
        },
        None => seq![s],
    }
}

/// The white space at the start of `s` ends at `k`.
proof fn lemma_trim_start(s: Seq<char>, k: int)
    requires
        0 <= k <= s.len(),
        forall|j: int| 0 <= j < k ==> is_whitespace_spec(s[j]),
        k < s.len() ==> !is_whitespace_spec(s[k]),
    ensures
        trim_start_spec(s) == s.skip(k),
    decreases k,
{
    if k == 0 {
        assert(s.skip(0) =~= s);
    } else {
        let rest = s.drop_first();
        assert forall|j: int| 0 <= j < k - 1 implies is_whitespace_spec(rest[j]) by {
            assert(rest[j] == s[j + 1]);
        }
        lemma_trim_start(rest, k - 1);
        assert(rest.skip(k - 1) =~= s.skip(k));
    }
}

/// The white space at the end of `s` starts at `k`.
proof fn lemma_trim_end(s: Seq<char>, k: int)
    requires
        0 <= k <= s.len(),
        forall|j: int| k <= j < s.len() ==> is_whitespace_spec(s[j]),
        k > 0 ==> !is_whitespace_spec(s[k - 1]),
    ensures
        trim_end_spec(s) == s.take(k),
    decreases s.len() - k,
{
    if k == s.len() {
        assert(s.take(k) =~= s);
    } else {
        let rest = s.drop_last();
        lemma_trim_end(rest, k);
        assert(rest.take(k) =~= s.take(k));
    }
}

/// The characters `v[from..to]` without the white space at their start and
/// at their end, as a string.
fn trimmed(v: &Vec<char>, whole: &str, from: usize, to: usize) -> (piece: String)
    requires
        from <= to <= v@.len(),
        whole@ == v@,
    ensures
        piece@ == trim_spec(v@.subrange(from as int, to as int)),
{
    let ghost part = v@.subrange(from as int, to as int);
    let mut lo: usize = from;
    while lo < to && is_whitespace(v[lo])
        invariant
            from <= lo <= to <= v@.len(),
            forall|j: int| from <= j < lo ==> is_whitespace_spec(v@[j]),
        decreases to - lo,
    {
        lo += 1;
    }
    let mut hi: usize = to;
    while hi > lo && is_whitespace(v[hi - 1])
        invariant
            lo <= hi <= to <= v@.len(),
            forall|j: int| hi <= j < to ==> is_whitespace_spec(v@[j]),
        decreases hi,
    {
        hi -= 1;
    }
    proof {
        lemma_trim_start(part, lo - from);
        let tail = part.skip(lo - from);
        assert(tail =~= v@.subrange(lo as int, to as int));
        lemma_trim_end(tail, hi - lo);
        assert(tail.take(hi - lo) =~= v@.subrange(lo as int, hi as int));
    }
    whole.substring_char(lo, hi).to_owned()
}

/// Splits `s` at each `sep` and trims each piece.
pub fn split_trimmed(s: &str, sep: char) -> (pieces: Vec<String>)
    ensures
        pieces@.len() == split_spec(s@, sep).len(),
        forall|k: int|
            0 <= k < pieces@.len() ==> (#[trigger] pieces@[k])@ == trim_spec(
                split_spec(s@, sep)[k],
            ),
{
    let v = to_chars(s);
    let mut pieces: Vec<String> = Vec::new();
    let mut from: usize = 0;
    let mut i: usize = 0;
    while i < v.len()
        invariant
            from <= i <= v@.len(),
            v@ == s@,
            forall|j: int| from <= j < i ==> v@[j] != sep,
            from > 0 ==> v@[from - 1] == sep,
            from == 0 ==> pieces@.len() == 0,
            from > 0 ==> pieces@.len() == split_spec(v@.take(from - 1), sep).len(),
            from > 0 ==> forall|k: int|
                0 <= k < pieces@.len() ==> (#[trigger] pieces@[k])@ == trim_spec(
                    split_spec(v@.take(from - 1), sep)[k],
                ),
        decreases v@.len() - i,
    {
        if v[i] == sep {
            let piece = trimmed(&v, s, from, i);
            let ghost before = pieces@;
            pieces.push(piece);
            proof {
                let head = v@.take(i as int);
                lemma_split_step(head, sep, from as int);
                assert(head.skip(from as int) =~= v@.subrange(from as int, i as int));
                if from > 0 {
                    assert(head.take(from - 1) =~= v@.take(from - 1));
                }
                assert(pieces@.len() == split_spec(head, sep).len());
                assert forall|k: int| 0 <= k < pieces@.len() implies (#[trigger] pieces@[k])@
                    == trim_spec(split_spec(head, sep)[k]) by {
                    if k < before.len() {
                        assert(pieces@[k] == before[k]);
                    }
                }
            }
            from = i + 1;
        }
        i += 1;
    }
    let piece = trimmed(&v, s, from, v.len());
    let ghost before = pieces@;
    pieces.push(piece);
    proof {
        lemma_split_step(v@, sep, from as int);
        assert(v@.skip(from as int) =~= v@.subrange(from as int, v@.len() as int));
        assert forall|k: int| 0 <= k < pieces@.len() implies (#[trigger] pieces@[k])@ == trim_spec(
            split_spec(v@, sep)[k],
        ) by {
            if k < before.len() {
                assert(pieces@[k] == before[k]);
            }
        }
    }
    pieces
}

/// The pieces of `s` when its last separator, if it has one, stands just
/// before `from`.
proof fn lemma_split_step(s: Seq<char>, sep: char, from: int)
    requires
        0 <= from <= s.len(),
        forall|j: int| from <= j < s.len() ==> s[j] != sep,
        from > 0 ==> s[from - 1] == sep,
    ensures
        from == 0 ==> split_spec(s, sep) == seq![s.skip(0)],
        from > 0 ==> split_spec(s, sep) == split_spec(s.take(from - 1), sep).push(s.skip(from)),
{
    if from == 0 {
        s.index_of_last_ensures(sep);
        assert(s.skip(0) =~= s);
        if s.index_of_last(sep) is Some {
            let at = s.index_of_last(sep)->0;
            assert(s[at] == sep);
        }
    } else {
        lemma_index_of_last(s, sep, from - 1);
    }
}

} // verus!
