//! Text helpers: the characters of a string, and numbers and bytes written
//! out in base ten and base sixteen.

use vstd::prelude::*;
use vstd::string::*;
use vstd::utf8::*;

verus! {

/// The characters of `s`, in order.
pub fn chars_of(s: &str) -> (r: Vec<char>)
    ensures
        r@ == s@,
{
    let mut out: Vec<char> = Vec::new();
    for c in it: s.chars()
        invariant
            it.seq() == s@,
            out@ == s@.take(it.index() as int),
    {
        out.push(c);
    }
    out
}

/// The character that writes the digit `d` in base sixteen, in lower case.
pub open spec fn digit_char(d: nat) -> char
    recommends
        d < 16,
{
    if d < 10 {
        (('0' as nat) + d) as char
    } else {
        (('a' as nat) + (d - 10)) as char
    }
}

/// `n` written in base ten, without sign or leading zeros.
pub open spec fn decimal_digits(n: nat) -> Seq<char>
    decreases n,
{
    if n < 10 {
        seq![digit_char(n)]
    } else {
        decimal_digits(n / 10).push(digit_char(n % 10))
    }
}

/// `n` written in base ten, with a leading `-` where it is negative.
pub open spec fn decimal_text(n: int) -> Seq<char> {
    if n < 0 {
        seq!['-'] + decimal_digits((-n) as nat)
    } else {
        decimal_digits(n as nat)
    }
}

/// The bytes written in base sixteen, two lower-case digits each.
pub open spec fn hex_digits(bytes: Seq<u8>) -> Seq<char>
    decreases bytes.len(),
{
    if bytes.len() == 0 {
        Seq::empty()
    } else {
        hex_digits(bytes.drop_last()).push(digit_char((bytes.last() / 16) as nat)).push(
            digit_char((bytes.last() % 16) as nat),
        )
    }
}

/// The one-character text of a digit below sixteen.
fn digit_text(d: u8) -> (r: &'static str)
    requires
        d < 16,
    ensures
        r@ == seq![digit_char(d as nat)],
{
    proof {
        reveal_strlit("0");
        reveal_strlit("1");
        reveal_strlit("2");
        reveal_strlit("3");
        reveal_strlit("4");
        reveal_strlit("5");
        reveal_strlit("6");
        reveal_strlit("7");
        reveal_strlit("8");
        reveal_strlit("9");
        reveal_strlit("a");
        reveal_strlit("b");
        reveal_strlit("c");
        reveal_strlit("d");
        reveal_strlit("e");
        reveal_strlit("f");
    }
    let r = match d {
        0 => "0",
        1 => "1",
        2 => "2",
        3 => "3",
        4 => "4",
        5 => "5",
        6 => "6",
        7 => "7",
        8 => "8",
        9 => "9",
        10 => "a",
        11 => "b",
        12 => "c",
        13 => "d",
        14 => "e",
        _ => "f",
    };
    assert(r@ =~= seq![digit_char(d as nat)]);
    r
}

/// Appends `n` in base ten to `out`.
fn push_decimal(out: &mut String, n: u128)
    ensures
        final(out)@ == old(out)@ + decimal_digits(n as nat),
    decreases n,
{
    if n >= 10 {
        push_decimal(out, n / 10);
    }
    out.append(digit_text((n % 10) as u8));
}

/// `n` in base ten, as `to_string` writes an integer.
pub fn decimal_string(n: i128) -> (r: String)
    ensures
        r@ == decimal_text(n as int),
{
    let mut out = String::new();
    if n < 0 {
        proof {
            reveal_strlit("-");
        }
        out.append("-");
        assert(out@ =~= seq!['-']);
        let magnitude: u128 = if n == i128::MIN {
            0x8000_0000_0000_0000_0000_0000_0000_0000u128
        } else {
            (-n) as u128
        };
        push_decimal(&mut out, magnitude);
    } else {
        push_decimal(&mut out, n as u128);
        assert(out@ =~= decimal_digits(n as nat));
    }
    out
}

/// The bytes in base sixteen, lower case, two digits each.
pub fn hex_string(bytes: &[u8]) -> (r: String)
    ensures
        r@ == hex_digits(bytes@),
{
    let mut out = String::new();
    let mut i: usize = 0;
    while i < bytes.len()
        invariant
            i <= bytes.len(),
            out@ == hex_digits(bytes@.take(i as int)),
        decreases bytes.len() - i,
    {
        let b: u8 = bytes[i];
        out.append(digit_text(b / 16));
        out.append(digit_text(b % 16));
        proof {
            let next = bytes@.take(i + 1);
            assert(next.drop_last() =~= bytes@.take(i as int));
            assert(next.last() == b);
        }
        i = i + 1;
    }
    assert(bytes@.take(i as int) =~= bytes@);
    out
}

/// Whether two texts hold the same characters.
pub fn same_text(a: &str, b: &str) -> (r: bool)
    ensures
        r == (a@ == b@),
{
    let x = a.as_bytes();
    let y = b.as_bytes();
    proof {
        encode_utf8_decode_utf8(a@);
        encode_utf8_decode_utf8(b@);
    }
    if x.len() != y.len() {
        return false;
    }
    let mut i: usize = 0;
    while i < x.len()
        invariant
            i <= x.len(),
            x.len() == y.len(),
            x@ == encode_utf8(a@),
            y@ == encode_utf8(b@),
            forall|j: int| 0 <= j < i ==> x@[j] == y@[j],
        decreases x.len() - i,
    {
        if x[i] != y[i] {
            return false;
        }
        i = i + 1;
    }
    assert(x@ =~= y@);
    true
}

/// The index of the first `c` in `s`, or the length of `s` where it holds
/// none.
pub open spec fn first_index(s: Seq<char>, c: char) -> int
    decreases s.len(),
{
    if s.len() == 0 || s[0] == c {
        0
    } else {
        1 + first_index(s.drop_first(), c)
    }
}

/// `first_index` is the least index that holds `c`, and the length where no
/// index does.
pub proof fn lemma_first_index(s: Seq<char>, c: char)
    ensures
        0 <= first_index(s, c) <= s.len(),
        forall|j: int| 0 <= j < first_index(s, c) ==> s[j] != c,
        first_index(s, c) < s.len() ==> s[first_index(s, c)] == c,
    decreases s.len(),
{
    if s.len() == 0 || s[0] == c {
    } else {
        let rest = s.drop_first();
        lemma_first_index(rest, c);
        assert forall|j: int| 0 <= j < first_index(s, c) implies s[j] != c by {
            if j > 0 {
                assert(s[j] == rest[j - 1]);
            }
        }
        if first_index(s, c) < s.len() {
            assert(s[first_index(s, c)] == rest[first_index(rest, c)]);
        }
    }
}

/// An index before which no `c` stands, and which holds `c` or is the
/// length, is `first_index`.
pub proof fn lemma_first_index_is(s: Seq<char>, c: char, i: int)
    requires
        0 <= i <= s.len(),
        forall|j: int| 0 <= j < i ==> s[j] != c,
        i < s.len() ==> s[i] == c,
    ensures
        first_index(s, c) == i,
{
    lemma_first_index(s, c);
    let f = first_index(s, c);
    if f < i {
        assert(s[f] != c);
    }
}

/// The pieces of `s` between occurrences of `sep`; a text without `sep` is
/// one piece.
pub open spec fn split(s: Seq<char>, sep: char) -> Seq<Seq<char>>
    decreases s.len(),
{
    let i = first_index(s, sep);
    if 0 <= i < s.len() {
        seq![s.take(i)] + split(s.skip(i + 1), sep)
    } else {
        seq![s]
    }
}

/// The first index in `from..to` at which `chars` holds `c`, or `to`.
pub fn find_char(chars: &Vec<char>, from: usize, to: usize, c: char) -> (r: usize)
    requires
        from <= to <= chars.len(),
    ensures
        from <= r <= to,
        r - from == first_index(chars@.subrange(from as int, to as int), c),
{
    let mut i: usize = from;
    while i < to && chars[i] != c
        invariant
            from <= i <= to <= chars.len(),
            forall|j: int| from <= j < i ==> chars@[j] != c,
        decreases to - i,
    {
        i = i + 1;
    }
    proof {
        lemma_first_index_is(chars@.subrange(from as int, to as int), c, i - from);
    }
    i
}

/// `s` with every occurrence of `from` replaced by `to`, reading from the
/// left; occurrences do not overlap.
pub open spec fn replaced(s: Seq<char>, from: Seq<char>, to: Seq<char>) -> Seq<char>
    decreases s.len(),
{
    if from.len() == 0 || s.len() < from.len() {
        s
    } else if s.take(from.len() as int) == from {
        to + replaced(s.skip(from.len() as int), from, to)
    } else {
        seq![s[0]] + replaced(s.skip(1), from, to)
    }
}

/// Whether `pattern` stands in `chars` at index `at`.
fn stands_at(chars: &Vec<char>, at: usize, pattern: &Vec<char>) -> (r: bool)
    requires
        at + pattern.len() <= chars.len(),
    ensures
        r == (chars@.subrange(at as int, at + pattern.len()) == pattern@),
{
    let mut k: usize = 0;
    while k < pattern.len()
        invariant
            k <= pattern.len(),
            at + pattern.len() <= chars.len(),
            forall|j: int| 0 <= j < k ==> chars@[at + j] == pattern@[j],
        decreases pattern.len() - k,
    {
        if chars[at + k] != pattern[k] {
            assert(chars@.subrange(at as int, at + pattern.len())[k as int] != pattern@[k as int]);
            return false;
        }
        k = k + 1;
    }
    assert(chars@.subrange(at as int, at + pattern.len()) =~= pattern@);
    true
}

/// `text` with every occurrence of `from` replaced by `to`.
pub fn replace(text: &str, from: &str, to: &str) -> (r: String)
    requires
        from@.len() > 0,
    ensures
        r@ == replaced(text@, from@, to@),
{
    let chars = chars_of(text);
    let pattern = chars_of(from);
    let n: usize = chars.len();
    let k: usize = pattern.len();
    let mut out = String::new();
    let mut kept: usize = 0;
    let mut i: usize = 0;
    assert(text@.skip(0) =~= text@);
    assert(out@ + text@.subrange(0, 0) + replaced(text@, from@, to@) =~= replaced(
        text@,
        from@,
        to@,
    ));
    while i < n && n - i >= k
        invariant
            kept <= i <= n,
            n == chars.len(),
            k == pattern.len(),
            k > 0,
            chars@ == text@,
            pattern@ == from@,
            replaced(text@, from@, to@) == out@ + text@.subrange(kept as int, i as int)
                + replaced(text@.skip(i as int), from@, to@),
        decreases n - i,
    {
        let ghost rest = text@.skip(i as int);
        assert(rest.take(k as int) =~= chars@.subrange(i as int, i + k));
        if stands_at(&chars, i, &pattern) {
            out.append(text.substring_char(kept, i));
            out.append(to);
            assert(rest.skip(k as int) =~= text@.skip(i + k));
            i = i + k;
            kept = i;
            assert(text@.subrange(kept as int, i as int) =~= Seq::<char>::empty());
        } else {
            assert(rest.skip(1) =~= text@.skip(i + 1));
            assert(text@.subrange(kept as int, i as int) + seq![rest[0]] =~= text@.subrange(
                kept as int,
                i + 1,
            ));
            i = i + 1;
        }
    }
    out.append(text.substring_char(kept, n));
    assert(text@.subrange(kept as int, i as int) + text@.skip(i as int) =~= text@.subrange(
        kept as int,
        n as int,
    ));
    out
}

/// The texts of strings.
pub open spec fn texts(strings: Seq<String>) -> Seq<Seq<char>> {
    strings.map_values(|s: String| s@)
}

/// The pieces of a text that starts a new piece after its first separator.
pub proof fn lemma_split_step(s: Seq<char>, sep: char)
    ensures
        split(s, sep).len() >= 1,
        split(s, sep)[0] == s.take(first_index(s, sep)),
        first_index(s, sep) < s.len() ==> split(s, sep).skip(1) == split(
            s.skip(first_index(s, sep) + 1),
            sep,
        ),
        first_index(s, sep) >= s.len() ==> split(s, sep).len() == 1,
{
    lemma_first_index(s, sep);
    let i = first_index(s, sep);
    if i < s.len() {
        let rest = split(s.skip(i + 1), sep);
        assert(split(s, sep) == seq![s.take(i)] + rest);
        assert((seq![s.take(i)] + rest).skip(1) =~= rest);
    } else {
        assert(s.take(i) =~= s);
    }
}

/// The pieces of `text` between occurrences of `sep`.
pub fn split_text(text: &str, sep: char) -> (r: Vec<String>)
    ensures
        texts(r@) == split(text@, sep),
{
    let chars = chars_of(text);
    let n: usize = chars.len();
    let mut pieces: Vec<String> = Vec::new();
    let mut start: usize = 0;
    let ghost all = split(text@, sep);
    proof {
        lemma_split_step(text@, sep);
        assert(text@.skip(0) =~= text@);
        assert(all.skip(0) =~= all);
        assert(texts(pieces@) =~= all.take(0));
    }
    loop
        invariant_except_break
            start <= n,
            pieces@.len() < all.len(),
            all.skip(pieces@.len() as int) == split(text@.skip(start as int), sep),
            texts(pieces@) == all.take(pieces@.len() as int),
        invariant
            n == chars.len(),
            chars@ == text@,
            all == split(text@, sep),
        ensures
            texts(pieces@) == all,
        decreases n - start,
    {
        let end: usize = find_char(&chars, start, n, sep);
        let ghost tail = text@.skip(start as int);
        let ghost done = pieces@.len() as int;
        proof {
            assert(chars@.subrange(start as int, n as int) =~= tail);
            lemma_split_step(tail, sep);
            assert(all[done] == all.skip(done)[0]);
            assert(tail.take(end - start) =~= text@.subrange(start as int, end as int));
        }
        let piece = text.substring_char(start, end).to_owned();
        let ghost before = pieces@;
        pieces.push(piece);
        proof {
            assert(texts(pieces@) =~= texts(before).push(piece@));
            assert(all.take(done + 1) =~= all.take(done).push(all[done]));
        }
        if end == n {
            proof {
                assert(all.skip(done).len() == 1);
                assert(all.take(done + 1) =~= all);
            }
            break ;
        }
        proof {
            assert(tail.skip(end - start + 1) =~= text@.skip(end + 1));
            assert(all.skip(done).skip(1) =~= all.skip(done + 1));
        }
        start = end + 1;
    }
    pieces
}

/// The line without the carriage return that may end it.
pub open spec fn strip_cr(line: Seq<char>) -> Seq<char> {
    if line.len() > 0 && line.last() == '\r' {
        line.drop_last()
    } else {
        line
    }
}

/// The lines of a text: its pieces between line feeds, each without the
/// carriage return that may end it. A text that ends in a line feed, and the
/// empty text, have no empty last line.
pub open spec fn lines_of(text: Seq<char>) -> Seq<Seq<char>> {
    let pieces = split(text, '\n');
    let kept = if pieces.last().len() == 0 {
        pieces.drop_last()
    } else {
        pieces
    };
    kept.map_values(|piece: Seq<char>| strip_cr(piece))
}

/// The lines of a text.
pub fn lines(text: &str) -> (r: Vec<String>)
    ensures
        texts(r@) == lines_of(text@),
{
    let mut pieces = split_text(text, '\n');
    proof {
        lemma_split_step(text@, '\n');
    }
    let ghost all = split(text@, '\n');
    let count: usize = pieces.len();
    assert(texts(pieces@)[count - 1] == pieces@[count - 1]@);
    if pieces[count - 1].as_str().unicode_len() == 0 {
        let ghost before = pieces@;
        pieces.pop();
        assert(texts(pieces@) =~= all.drop_last());
    }
    let ghost kept = texts(pieces@);
    let mut out: Vec<String> = Vec::new();
    let mut i: usize = 0;
    while i < pieces.len()
        invariant
            i <= pieces.len(),
            kept == texts(pieces@),
            texts(out@) == kept.take(i as int).map_values(|piece: Seq<char>| strip_cr(piece)),
        decreases pieces.len() - i,
    {
        let piece = pieces[i].as_str();
        assert(kept[i as int] == piece@);
        let len: usize = piece.unicode_len();
        let line = if len > 0 && piece.get_char(len - 1) == '\r' {
            piece.substring_char(0, len - 1).to_owned()
        } else {
            piece.to_owned()
        };
        assert(line@ =~= strip_cr(piece@));
        let ghost before = out@;
        out.push(line);
        assert(texts(out@) =~= texts(before).push(line@));
        assert(kept.take(i + 1).map_values(|piece: Seq<char>| strip_cr(piece)) =~= kept.take(
            i as int,
        ).map_values(|piece: Seq<char>| strip_cr(piece)).push(strip_cr(kept[i as int])));
        i = i + 1;
    }
    assert(kept.take(i as int) =~= kept);
    out
}

} // verus!
