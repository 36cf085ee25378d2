//! Text as sequences of characters: the small string operations that the
//! reports, the dashboard and the configuration listing are made of.

use vstd::prelude::*;
use vstd::string::*;
use vstd::utf8::*;

verus! {

/// The texts that a sequence of owned strings holds.
pub open spec fn texts(v: Seq<String>) -> Seq<Seq<char>> {
    v.map_values(|s: String| s@)
}

/// The texts that a sequence of borrowed strings holds.
pub open spec fn strs(v: Seq<&str>) -> Seq<Seq<char>> {
    v.map_values(|s: &str| s@)
}

/// The text of an optional owned string.
pub open spec fn opt_text(s: Option<String>) -> Option<Seq<char>> {
    match s {
        Some(t) => Some(t@),
        None => None,
    }
}

/// The text of an optional borrowed string.
pub open spec fn opt_str(s: Option<&str>) -> Option<Seq<char>> {
    match s {
        Some(t) => Some(t@),
        None => None,
    }
}

/// The number of bytes that a text takes in UTF-8.
pub open spec fn byte_len(s: Seq<char>) -> nat {
    encode_utf8(s).len()
}

/// The text whose UTF-8 encoding is the first `n` bytes of the encoding of `s`.
pub open spec fn byte_prefix(s: Seq<char>, n: int) -> Seq<char> {
    decode_utf8(encode_utf8(s).subrange(0, n))
}

/// `piece` written `n` times.
pub open spec fn repeated(piece: Seq<char>, n: nat) -> Seq<char>
    decreases n,
{
    if n == 0 {
        Seq::empty()
    } else {
        repeated(piece, (n - 1) as nat) + piece
    }
}

/// `s` followed by as many spaces as it is short of `width` characters.
pub open spec fn pad_right(s: Seq<char>, width: nat) -> Seq<char> {
    if s.len() < width {
        s + repeated(" "@, (width - s.len()) as nat)
    } else {
        s
    }
}

/// `s` with as many spaces around it as it is short of `width` characters; of an odd
/// number the greater part stands behind it.
pub open spec fn centred(s: Seq<char>, width: nat) -> Seq<char> {
    if s.len() < width {
        let gap = (width - s.len()) as nat;
        repeated(" "@, gap / 2) + s + repeated(" "@, (gap - gap / 2) as nat)
    } else {
        s
    }
}

/// The last place at or before byte `n` of `s` that lies between two characters.
pub open spec fn cut_point(s: Seq<char>, n: int) -> int
    decreases n,
{
    if n <= 0 || is_char_boundary(encode_utf8(s), n) {
        n
    } else {
        cut_point(s, n - 1)
    }
}

/// The decimal digits of `n`, without leading zeros.
pub open spec fn decimal(n: nat) -> Seq<char>
    decreases n,
{
    if n < 10 {
        seq!["0123456789"@[n as int]]
    } else {
        decimal(n / 10) + seq!["0123456789"@[(n % 10) as int]]
    }
}

/// The characters with the Unicode property `White_Space`.
pub open spec fn is_white_space(c: char) -> bool {
    ||| '\u{9}' <= c <= '\u{d}'
    ||| c == '\u{20}'
    ||| c == '\u{85}'
    ||| c == '\u{a0}'
    ||| c == '\u{1680}'
    ||| '\u{2000}' <= c <= '\u{200a}'
    ||| c == '\u{2028}'
    ||| c == '\u{2029}'
    ||| c == '\u{202f}'
    ||| c == '\u{205f}'
    ||| c == '\u{3000}'
}

/// `s` without its leading white space.
pub open spec fn trim_start(s: Seq<char>) -> Seq<char>
    decreases s.len(),
{
    if s.len() > 0 && is_white_space(s[0]) {
        trim_start(s.drop_first())
    } else {
        s
    }
}

/// `s` without its trailing white space.
pub open spec fn trim_end(s: Seq<char>) -> Seq<char>
    decreases s.len(),
{
    if s.len() > 0 && is_white_space(s.last()) {
        trim_end(s.drop_last())
    } else {
        s
    }
}

/// `s` without leading and trailing white space.
pub open spec fn trimmed(s: Seq<char>) -> Seq<char> {
    trim_end(trim_start(s))
}

/// The pieces of `s` between the occurrences of `sep`.
pub open spec fn split_on(s: Seq<char>, sep: char) -> Seq<Seq<char>>
    decreases s.len(),
{
    if s.len() == 0 {
        seq![Seq::empty()]
    } else {
        let before = split_on(s.drop_last(), sep);
        if s.last() == sep {
            before.push(Seq::empty())
        } else {
            before.drop_last().push(before.last().push(s.last()))
        }
    }
}

/// The texts of `parts` in order, with `sep` between each two of them.
pub open spec fn joined(parts: Seq<Seq<char>>, sep: Seq<char>) -> Seq<char>
    decreases parts.len(),
{
    if parts.len() == 0 {
        Seq::empty()
    } else if parts.len() == 1 {
        parts[0]
    } else {
        joined(parts.drop_last(), sep) + sep + parts.last()
    }
}

/// Whether two strings hold the same text.
pub fn same_text(a: &str, b: &str) -> (r: bool)
    ensures
        r == (a@ == b@),
{
    proof {
        encode_utf8_decode_utf8(a@);
        encode_utf8_decode_utf8(b@);
    }
    let x = a.as_bytes();
    let y = b.as_bytes();
    if x.len() != y.len() {
        return false;
    }
    let mut i: usize = 0;
    while i < x.len()
        invariant
            i <= x@.len(),
            x@.len() == y@.len(),
            x@ == encode_utf8(a@),
            y@ == encode_utf8(b@),
            x@.take(i as int) == y@.take(i as int),
        decreases x@.len() - i,
    {
        if x[i] != y[i] {
            assert(x@[i as int] != y@[i as int]);
            return false;
        }
        proof {
            assert(x@.take(i + 1) =~= x@.take(i as int).push(x@[i as int]));
            assert(y@.take(i + 1) =~= y@.take(i as int).push(y@[i as int]));
        }
        i = i + 1;
    }
    proof {
        assert(x@.take(i as int) =~= x@);
        assert(y@.take(i as int) =~= y@);
    }
    true
}

/// The characters of a string.
pub fn chars_of(s: &str) -> (r: Vec<char>)
    ensures
        r@ == s@,
{
    let mut out: Vec<char> = Vec::new();
    for c in it: s.chars()
        invariant
            out@ == it.seq().take(it.index() as int),
            it.seq() == s@,
    {
        out.push(c);
    }
    out
}

/// The number of bytes of a string.
pub fn text_bytes(s: &str) -> (n: usize)
    ensures
        n == byte_len(s@),
{
    s.as_bytes().len()
}

/// Writes `piece` `n` times behind `out`.
pub fn push_repeated(out: &mut String, piece: &str, n: usize)
    ensures
        final(out)@ == old(out)@ + repeated(piece@, n as nat),
{
    let mut i: usize = 0;
    while i < n
        invariant
            i <= n,
            out@ == old(out)@ + repeated(piece@, i as nat),
        decreases n - i,
    {
        out.append(piece);
        i = i + 1;
    }
}

/// Writes `s` behind `out`, padded with spaces to `width` characters.
pub fn push_padded(out: &mut String, s: &str, width: usize)
    ensures
        final(out)@ == old(out)@ + pad_right(s@, width as nat),
{
    let n = s.unicode_len();
    out.append(s);
    if n < width {
        push_repeated(out, " ", width - n);
    }
}

/// Writes `s` behind `out`, with spaces around it up to `width` characters.
pub fn push_centred(out: &mut String, s: &str, width: usize)
    ensures
        final(out)@ == old(out)@ + centred(s@, width as nat),
{
    let n = s.unicode_len();
    if n < width {
        let gap = width - n;
        push_repeated(out, " ", gap / 2);
        out.append(s);
        push_repeated(out, " ", gap - gap / 2);
        assert(out@ =~= old(out)@ + centred(s@, width as nat));
    } else {
        out.append(s);
    }
}

/// The decimal digits of a number.
pub fn decimal_text(n: u64) -> (r: String)
    ensures
        r@ == decimal(n as nat),
    decreases n,
{
    proof {
        reveal_strlit("0123456789");
    }
    let last = (n % 10) as usize;
    let digit = "0123456789".substring_ascii(last, last + 1);
    if n < 10 {
        digit.to_string()
    } else {
        decimal_text(n / 10).concat(digit)
    }
}

/// Whether a character is white space.
pub fn white_space(c: char) -> (r: bool)
    ensures
        r == is_white_space(c),
{
    ('\u{9}' <= c && c <= '\u{d}') || c == '\u{20}' || c == '\u{85}' || c == '\u{a0}' || c
        == '\u{1680}' || ('\u{2000}' <= c && c <= '\u{200a}') || c == '\u{2028}' || c == '\u{2029}'
        || c == '\u{202f}' || c == '\u{205f}' || c == '\u{3000}'
}

/// `s` without leading and trailing white space.
pub fn trimmed_text(s: &str) -> (r: &str)
    ensures
        r@ == trimmed(s@),
{
    let chars = chars_of(s);
    let mut lo: usize = 0;
    proof {
        assert(s@.skip(0) =~= s@);
    }
    while lo < chars.len() && white_space(chars[lo])
        invariant
            lo <= chars@.len(),
            chars@ == s@,
            trim_start(s@) == trim_start(s@.skip(lo as int)),
        decreases chars@.len() - lo,
    {
        proof {
            assert(s@.skip(lo as int).drop_first() =~= s@.skip(lo + 1));
        }
        lo = lo + 1;
    }
    let mut hi: usize = chars.len();
    proof {
        assert(s@.skip(lo as int) =~= s@.subrange(lo as int, hi as int));
    }
    while hi > lo && white_space(chars[hi - 1])
        invariant
            lo <= hi <= chars@.len(),
            chars@ == s@,
            trimmed(s@) == trim_end(s@.subrange(lo as int, hi as int)),
        decreases hi - lo,
    {
        proof {
            assert(s@.subrange(lo as int, hi as int).drop_last() =~= s@.subrange(
                lo as int,
                hi - 1,
            ));
        }
        hi = hi - 1;
    }
    s.substring_char(lo, hi)
}

/// The pieces of `s` between the occurrences of `sep`.
pub fn split_text(s: &str, sep: char) -> (r: Vec<&str>)
    ensures
        strs(r@) == split_on(s@, sep),
{
    let chars = chars_of(s);
    let mut pieces: Vec<&str> = Vec::new();
    let mut start: usize = 0;
    let mut i: usize = 0;
    proof {
        assert(s@.take(0) =~= Seq::<char>::empty());
        assert(strs(pieces@).push(s@.subrange(0, 0)) =~= seq![Seq::<char>::empty()]);
    }
    while i < chars.len()
        invariant
            start <= i <= chars@.len(),
            chars@ == s@,
            split_on(s@.take(i as int), sep) == strs(pieces@).push(
                s@.subrange(start as int, i as int),
            ),
        decreases chars@.len() - i,
    {
        let ghost before = strs(pieces@);
        proof {
            assert(s@.take(i + 1).drop_last() =~= s@.take(i as int));
            assert(s@.take(i + 1).last() == s@[i as int]);
        }
        if chars[i] == sep {
            pieces.push(s.substring_char(start, i));
            start = i + 1;
            proof {
                assert(strs(pieces@) =~= before.push(strs(pieces@).last()));
                assert(s@.subrange(start as int, i + 1) =~= Seq::<char>::empty());
            }
        } else {
            proof {
                assert(before.push(s@.subrange(start as int, i as int)).drop_last() =~= before);
                assert(s@.subrange(start as int, i as int).push(s@[i as int]) =~= s@.subrange(
                    start as int,
                    i + 1,
                ));
            }
        }
        i = i + 1;
    }
    let ghost before = strs(pieces@);
    pieces.push(s.substring_char(start, i));
    proof {
        assert(s@.take(i as int) =~= s@);
        assert(strs(pieces@) =~= before.push(s@.subrange(start as int, i as int)));
    }
    pieces
}

/// The texts of `parts` in order, with `sep` between each two of them.
pub fn joined_text(parts: &Vec<String>, sep: &str) -> (r: String)
    ensures
        r@ == joined(texts(parts@), sep@),
{
    let mut out = String::new();
    let mut i: usize = 0;
    proof {
        assert(texts(parts@).take(0) =~= Seq::<Seq<char>>::empty());
    }
    while i < parts.len()
        invariant
            i <= parts@.len(),
            out@ == joined(texts(parts@).take(i as int), sep@),
        decreases parts@.len() - i,
    {
        proof {
            assert(texts(parts@).take(i + 1).drop_last() =~= texts(parts@).take(i as int));
            assert(texts(parts@).take(i + 1).last() == parts@[i as int]@);
        }
        if i > 0 {
            out.append(sep);
        }
        out.append(parts[i].as_str());
        i = i + 1;
    }
    proof {
        assert(texts(parts@).take(i as int) =~= texts(parts@));
    }
    out
}

/// The first `n` bytes of `s`, which must end between two characters.
pub fn prefix_text(s: &str, n: usize) -> (r: &str)
    requires
        is_char_boundary(encode_utf8(s@), n as int),
    ensures
        r@ == byte_prefix(s@, n as int),
{
    let parts = s.split_at(n);
    proof {
        encode_utf8_decode_utf8(parts.0@);
    }
    parts.0
}

/// The first bytes of `s`, as many as end between two characters but no more than `n`.
pub fn cut_text(s: &str, n: usize) -> (r: &str)
    ensures
        r@ == byte_prefix(s@, cut_point(s@, n as int)),
{
    proof {
        encode_utf8_valid_utf8(s@);
        is_char_boundary_start_end_of_seq(encode_utf8(s@));
        encode_utf8_decode_utf8(s@);
    }
    let mut k: usize = n;
    while k > 0 && !s.is_char_boundary(k)
        invariant
            is_char_boundary(encode_utf8(s@), 0),
            cut_point(s@, n as int) == cut_point(s@, k as int),
        decreases k,
    {
        k = k - 1;
    }
    prefix_text(s, k)
}

/// Adds a line.
pub fn push_line(lines: &mut Vec<String>, line: String)
    ensures
        texts(final(lines)@) == texts(old(lines)@).push(line@),
{
    lines.push(line);
    proof {
        assert(texts(lines@) =~= texts(old(lines)@).push(line@));
    }
}

/// Every character takes at least one byte.
pub proof fn lemma_byte_len_covers(s: Seq<char>)
    ensures
        s.len() <= byte_len(s),
    decreases s.len(),
{
    if s.len() > 0 {
        lemma_byte_len_covers(s.drop_first());
        assert(encode_scalar(s[0] as u32).len() >= 1);
    }
}

/// The length of a repetition of one character.
pub proof fn lemma_repeated_len(piece: Seq<char>, n: nat)
    requires
        piece.len() == 1,
    ensures
        repeated(piece, n).len() == n,
    decreases n,
{
    if n > 0 {
        lemma_repeated_len(piece, (n - 1) as nat);
    }
}

/// A text that fits into a width is padded to exactly that width.
pub proof fn lemma_pad_right_len(s: Seq<char>, width: nat)
    requires
        s.len() <= width,
    ensures
        pad_right(s, width).len() == width,
{
    reveal_strlit(" ");
    if s.len() < width {
        lemma_repeated_len(" "@, (width - s.len()) as nat);
    }
}

/// A text that fits into a width is centred in exactly that width.
pub proof fn lemma_centred_len(s: Seq<char>, width: nat)
    requires
        s.len() <= width,
    ensures
        centred(s, width).len() == width,
{
    reveal_strlit(" ");
    if s.len() < width {
        let gap = (width - s.len()) as nat;
        lemma_repeated_len(" "@, gap / 2);
        lemma_repeated_len(" "@, (gap - gap / 2) as nat);
    }
}

/// A text without the separator is its only piece.
pub proof fn lemma_split_single(s: Seq<char>, sep: char)
    requires
        !s.contains(sep),
    ensures
        split_on(s, sep) == seq![s],
    decreases s.len(),
{
    if s.len() > 0 {
        let before = s.drop_last();
        assert(s[s.len() - 1] != sep);
        assert forall|i: int| 0 <= i < before.len() implies before[i] != sep by {
            assert(s[i] != sep);
        }
        lemma_split_single(before, sep);
        assert(split_on(s, sep) =~= seq![before.push(s.last())]);
        assert(before.push(s.last()) =~= s);
    } else {
        assert(s =~= Seq::<char>::empty());
    }
}

/// The pieces of two texts with the separator between them are those of the one
/// and those of the other.
pub proof fn lemma_split_add(a: Seq<char>, b: Seq<char>, sep: char)
    ensures
        split_on(a + seq![sep] + b, sep) == split_on(a, sep) + split_on(b, sep),
        split_on(a, sep).len() > 0,
        split_on(b, sep).len() > 0,
    decreases b.len(),
{
    let whole = a + seq![sep] + b;
    lemma_split_nonempty(a, sep);
    lemma_split_nonempty(b, sep);
    if b.len() == 0 {
        assert(whole.drop_last() =~= a);
        assert(split_on(whole, sep) =~= split_on(a, sep) + split_on(b, sep));
    } else {
        let shorter = b.drop_last();
        lemma_split_add(a, shorter, sep);
        assert(whole.drop_last() =~= a + seq![sep] + shorter);
        assert(whole.last() == b.last());
        let left = split_on(a, sep);
        let right = split_on(shorter, sep);
        assert((left + right).last() == right.last());
        assert((left + right).drop_last() =~= left + right.drop_last());
        assert(split_on(whole, sep) =~= left + split_on(b, sep));
    }
}

/// Every text has a piece.
pub proof fn lemma_split_nonempty(s: Seq<char>, sep: char)
    ensures
        split_on(s, sep).len() > 0,
    decreases s.len(),
{
    if s.len() > 0 {
        lemma_split_nonempty(s.drop_last(), sep);
    }
}

/// A text without white space at its ends is not changed by trimming.
pub proof fn lemma_trim_fixed(s: Seq<char>)
    requires
        s.len() > 0,
        !is_white_space(s[0]),
        !is_white_space(s.last()),
    ensures
        trimmed(s) == s,
{
}

/// A space in front of such a text is taken off by trimming.
pub proof fn lemma_trim_leading_space(s: Seq<char>)
    requires
        s.len() > 0,
        !is_white_space(s[0]),
        !is_white_space(s.last()),
    ensures
        trimmed(seq![' '] + s) == s,
{
    let spaced = seq![' '] + s;
    assert(spaced.drop_first() =~= s);
    assert(trim_start(spaced) == trim_start(s));
}

/// Whether `t` is what is left of `s` without the white space before `a` and from `b`
/// on, and neither begins nor ends with white space.
pub open spec fn trims(s: Seq<char>, t: Seq<char>, a: int, b: int) -> bool {
    &&& 0 <= a <= b <= s.len()
    &&& t == s.subrange(a, b)
    &&& forall|i: int| 0 <= i < a ==> is_white_space(#[trigger] s[i])
    &&& forall|i: int| b <= i < s.len() ==> is_white_space(#[trigger] s[i])
    &&& a < b ==> !is_white_space(s[a]) && !is_white_space(s[b - 1])
}

proof fn lemma_trim_start(s: Seq<char>) -> (a: int)
    ensures
        0 <= a <= s.len(),
        trim_start(s) == s.skip(a),
        forall|i: int| 0 <= i < a ==> is_white_space(#[trigger] s[i]),
        a < s.len() ==> !is_white_space(s[a]),
    decreases s.len(),
{
    if s.len() > 0 && is_white_space(s[0]) {
        let a = lemma_trim_start(s.drop_first());
        assert(s.drop_first().skip(a) =~= s.skip(a + 1));
        assert forall|i: int| 0 <= i < a + 1 implies is_white_space(#[trigger] s[i]) by {
            if i > 0 {
                assert(s.drop_first()[i - 1] == s[i]);
            }
        }
        if a + 1 < s.len() {
            assert(s.drop_first()[a] == s[a + 1]);
        }
        a + 1
    } else {
        assert(s.skip(0) =~= s);
        0
    }
}

proof fn lemma_trim_end(s: Seq<char>) -> (b: int)
    ensures
        0 <= b <= s.len(),
        trim_end(s) == s.take(b),
        forall|i: int| b <= i < s.len() ==> is_white_space(#[trigger] s[i]),
        0 < b ==> !is_white_space(s[b - 1]),
    decreases s.len(),
{
    if s.len() > 0 && is_white_space(s.last()) {
        let shorter = s.drop_last();
        let b = lemma_trim_end(shorter);
        assert(shorter.take(b) =~= s.take(b));
        assert forall|i: int| b <= i < s.len() implies is_white_space(#[trigger] s[i]) by {
            if i < shorter.len() {
                assert(shorter[i] == s[i]);
            }
        }
        if 0 < b {
            assert(shorter[b - 1] == s[b - 1]);
        }
        b
    } else {
        assert(s.take(s.len() as int) =~= s);
        s.len() as int
    }
}

/// Trimming takes off white space at both ends, all of it, and nothing else.
pub proof fn law_trimming_takes_off_white_space(s: Seq<char>)
    ensures
        exists|a: int, b: int| #[trigger] trims(s, trimmed(s), a, b),
{
    let a = lemma_trim_start(s);
    let rest = s.skip(a);
    let b = lemma_trim_end(rest);
    assert(rest.take(b) =~= s.subrange(a, a + b));
    assert forall|i: int| a + b <= i < s.len() implies is_white_space(#[trigger] s[i]) by {
        assert(rest[i - a] == s[i]);
    }
    if 0 < b {
        assert(rest[b - 1] == s[a + b - 1]);
    }
    assert(trims(s, trimmed(s), a, a + b));
}

/// Splitting loses nothing and splits at every separator: the pieces with the separator
/// between them give the text back, and none of them holds the separator.
pub proof fn law_splitting_is_undone_by_joining(s: Seq<char>, sep: char)
    ensures
        joined(split_on(s, sep), seq![sep]) == s,
        forall|k: int|
            0 <= k < split_on(s, sep).len() ==> !(#[trigger] split_on(s, sep)[k]).contains(sep),
    decreases s.len(),
{
    let pieces = split_on(s, sep);
    if s.len() == 0 {
        assert(joined(pieces, seq![sep]) =~= s);
    } else {
        let shorter = s.drop_last();
        let before = split_on(shorter, sep);
        law_splitting_is_undone_by_joining(shorter, sep);
        lemma_split_nonempty(shorter, sep);
        assert(s =~= shorter.push(s.last()));
        if s.last() == sep {
            assert(pieces.drop_last() =~= before);
            assert(joined(pieces, seq![sep]) =~= s);
            assert forall|k: int| 0 <= k < pieces.len() implies !(
            #[trigger] pieces[k]).contains(sep) by {
                if k < before.len() {
                    assert(pieces[k] == before[k]);
                }
            }
        } else {
            assert(pieces.drop_last() =~= before.drop_last());
            if before.len() == 1 {
                assert(before[0] == before.last());
            }
            assert(joined(pieces, seq![sep]) =~= joined(before, seq![sep]).push(s.last()));
            assert forall|k: int| 0 <= k < pieces.len() implies !(
            #[trigger] pieces[k]).contains(sep) by {
                if k < before.len() - 1 {
                    assert(pieces[k] == before[k]);
                } else {
                    let last = before[before.len() - 1];
                    assert(pieces[k] == last.push(s.last()));
                    if pieces[k].contains(sep) {
                        let i = choose|i: int| 0 <= i < pieces[k].len() && pieces[k][i] == sep;
                        assert(last[i] == sep);
                    }
                }
            }
        }
    }
}

/// A further part is joined on behind the separator; a single part stands alone.
pub proof fn law_joining_adds_one_part(parts: Seq<Seq<char>>, part: Seq<char>, sep: Seq<char>)
    ensures
        joined(Seq::empty(), sep) == Seq::<char>::empty(),
        joined(seq![part], sep) == part,
        parts.len() > 0 ==> joined(parts.push(part), sep) == joined(parts, sep) + sep + part,
{
    assert(parts.push(part).drop_last() =~= parts);
}

/// The number that decimal digits stand for.
pub open spec fn digits_value(s: Seq<char>) -> int
    decreases s.len(),
{
    if s.len() == 0 {
        0
    } else {
        digits_value(s.drop_last()) * 10 + (s.last() as int - '0' as int)
    }
}

/// The decimal text of a number is made of digits, stands for that number, and begins
/// with a zero only if the number is zero.
pub proof fn law_decimal_stands_for_the_number(n: nat)
    ensures
        digits_value(decimal(n)) == n,
        decimal(n).len() > 0,
        forall|i: int| 0 <= i < decimal(n).len() ==> '0' <= #[trigger] decimal(n)[i] <= '9',
        decimal(n)[0] == '0' <==> n == 0,
        n == 0 ==> decimal(n).len() == 1,
    decreases n,
{
    reveal_strlit("0123456789");
    let digit = "0123456789"@[(n % 10) as int];
    assert(digit as int - '0' as int == n % 10);
    if n < 10 {
        assert(decimal(n).drop_last() =~= Seq::<char>::empty());
        assert(decimal(n).last() == digit);
        assert(digits_value(Seq::<char>::empty()) == 0);
    } else {
        law_decimal_stands_for_the_number(n / 10);
        assert(decimal(n) =~= decimal(n / 10).push(digit));
        assert(decimal(n).drop_last() =~= decimal(n / 10));
    }
}

/// A repetition of one character holds it as often as asked for, and nothing else.
pub proof fn law_repetition(c: char, n: nat)
    ensures
        repeated(seq![c], n) == Seq::new(n, |i: int| c),
    decreases n,
{
    if n > 0 {
        law_repetition(c, (n - 1) as nat);
    }
    assert(repeated(seq![c], n) =~= Seq::new(n, |i: int| c));
}

/// Padding keeps the text in front and adds nothing but spaces behind it, up to the
/// width and no further.
pub proof fn law_padding_adds_spaces_behind(s: Seq<char>, width: nat)
    ensures
        pad_right(s, width).len() == (if s.len() < width {
            width
        } else {
            s.len()
        }),
        pad_right(s, width).take(s.len() as int) == s,
        forall|i: int|
            s.len() <= i < pad_right(s, width).len() ==> #[trigger] pad_right(s, width)[i] == ' ',
{
    reveal_strlit(" ");
    assert(" "@ =~= seq![' ']);
    if s.len() < width {
        law_repetition(' ', (width - s.len()) as nat);
    }
    assert(pad_right(s, width).take(s.len() as int) =~= s);
}

/// Centring keeps the text and adds nothing but spaces around it, up to the width and no
/// further, as many in front as behind or one fewer.
pub proof fn law_centring_adds_spaces_around(s: Seq<char>, width: nat)
    requires
        s.len() <= width,
    ensures
        ({
            let left = (width - s.len()) / 2;
            let t = centred(s, width);
            &&& t.len() == width
            &&& t.subrange(left, left + s.len()) == s
            &&& forall|i: int| 0 <= i < left ==> #[trigger] t[i] == ' '
            &&& forall|i: int| left + s.len() <= i < width ==> #[trigger] t[i] == ' '
        }),
{
    reveal_strlit(" ");
    assert(" "@ =~= seq![' ']);
    let gap = (width - s.len()) as nat;
    law_repetition(' ', gap / 2);
    law_repetition(' ', (gap - gap / 2) as nat);
    let left = (width - s.len()) / 2;
    assert(centred(s, width).subrange(left, left + s.len()) =~= s);
}

/// What stands before a byte between two characters is the beginning of the text, of
/// just that many bytes.
pub proof fn law_byte_prefix(s: Seq<char>, n: int)
    requires
        is_char_boundary(encode_utf8(s), n),
        0 <= n <= byte_len(s),
    ensures
        encode_utf8(byte_prefix(s, n)) == encode_utf8(s).take(n),
        byte_prefix(s, n).len() <= s.len(),
        byte_prefix(s, n) == s.take(byte_prefix(s, n).len() as int),
{
    let bytes = encode_utf8(s);
    encode_utf8_valid_utf8(s);
    encode_utf8_decode_utf8(s);
    valid_utf8_split(bytes, n);
    decode_utf8_split(bytes, n);
    decode_utf8_encode_utf8(bytes.subrange(0, n));
    let head = byte_prefix(s, n);
    let tail = decode_utf8(bytes.subrange(n, bytes.len() as int));
    assert(s =~= head + tail);
    assert(head =~= s.take(head.len() as int));
    assert(bytes.subrange(0, n) =~= bytes.take(n));
}

/// A cut is made between two characters, as far behind as the limit allows.
pub proof fn law_cut_point(s: Seq<char>, n: int)
    requires
        0 <= n,
    ensures
        0 <= cut_point(s, n) <= n,
        cut_point(s, n) <= byte_len(s),
        is_char_boundary(encode_utf8(s), cut_point(s, n)),
        forall|k: int|
            cut_point(s, n) < k <= n ==> !#[trigger] is_char_boundary(encode_utf8(s), k),
    decreases n,
{
    let bytes = encode_utf8(s);
    encode_utf8_valid_utf8(s);
    is_char_boundary_start_end_of_seq(bytes);
    if n > 0 && !is_char_boundary(bytes, n) {
        law_cut_point(s, n - 1);
    }
}

/// Whether the characters from `i` to `j` stand between two separators, or a separator
/// and an end of the text, with no separator among them.
pub open spec fn is_piece(s: Seq<char>, sep: char, i: int, j: int) -> bool {
    &&& 0 <= i <= j <= s.len()
    &&& i == 0 || s[i - 1] == sep
    &&& j == s.len() || s[j] == sep
    &&& forall|k: int| i <= k < j ==> #[trigger] s[k] != sep
}

/// Where a piece stands.
pub proof fn lemma_place_of_piece(s: Seq<char>, sep: char, k: int) -> (r: (int, int))
    requires
        0 <= k < split_on(s, sep).len(),
    ensures
        is_piece(s, sep, r.0, r.1),
        split_on(s, sep)[k] == s.subrange(r.0, r.1),
        k < split_on(s, sep).len() - 1 ==> r.1 < s.len(),
        k == split_on(s, sep).len() - 1 ==> r.1 == s.len(),
    decreases s.len(),
{
    let pieces = split_on(s, sep);
    if s.len() == 0 {
        assert(s.subrange(0, 0) =~= pieces[k]);
        (0, 0)
    } else {
        let shorter = s.drop_last();
        let before = split_on(shorter, sep);
        let n = shorter.len() as int;
        lemma_split_nonempty(shorter, sep);
        if s.last() == sep {
            if k < before.len() {
                let (i, j) = lemma_place_of_piece(shorter, sep, k);
                assert(s.subrange(i, j) =~= shorter.subrange(i, j));
                assert forall|m: int| i <= m < j implies #[trigger] s[m] != sep by {
                    assert(shorter[m] != sep);
                }
                (i, j)
            } else {
                assert(s.subrange(n + 1, n + 1) =~= pieces[k]);
                (n + 1, n + 1)
            }
        } else {
            let (i, j) = lemma_place_of_piece(shorter, sep, k);
            assert forall|m: int| i <= m < j implies #[trigger] s[m] != sep by {
                assert(shorter[m] != sep);
            }
            if k < before.len() - 1 {
                assert(pieces[k] == before[k]);
                assert(s.subrange(i, j) =~= shorter.subrange(i, j));
                (i, j)
            } else {
                assert(pieces[k] == before.last().push(s.last()));
                assert(s.subrange(i, n + 1) =~= shorter.subrange(i, n).push(s.last()));
                (i, n + 1)
            }
        }
    }
}

/// Which piece stands at a place.
pub proof fn lemma_piece_at_place(s: Seq<char>, sep: char, i: int, j: int) -> (k: int)
    requires
        is_piece(s, sep, i, j),
    ensures
        0 <= k < split_on(s, sep).len(),
        split_on(s, sep)[k] == s.subrange(i, j),
        j == s.len() ==> k == split_on(s, sep).len() - 1,
        j < s.len() ==> k < split_on(s, sep).len() - 1,
    decreases s.len(),
{
    let pieces = split_on(s, sep);
    if s.len() == 0 {
        assert(s.subrange(i, j) =~= pieces[0]);
        0
    } else {
        let shorter = s.drop_last();
        let before = split_on(shorter, sep);
        let n = shorter.len() as int;
        lemma_split_nonempty(shorter, sep);
        if j == s.len() {
            if s.last() == sep {
                assert(i == j) by {
                    if i < j {
                        assert(s[n] != sep);
                    }
                }
                assert(s.subrange(i, j) =~= pieces[pieces.len() - 1]);
                pieces.len() - 1
            } else {
                assert(i <= n);
                assert(is_piece(shorter, sep, i, n)) by {
                    assert forall|m: int| i <= m < n implies #[trigger] shorter[m] != sep by {
                        assert(s[m] != sep);
                    }
                }
                let k = lemma_piece_at_place(shorter, sep, i, n);
                assert(s.subrange(i, j) =~= shorter.subrange(i, n).push(s.last()));
                assert(before.last() == before[k]);
                k
            }
        } else {
            assert(is_piece(shorter, sep, i, j)) by {
                assert forall|m: int| i <= m < j implies #[trigger] shorter[m] != sep by {
                    assert(s[m] != sep);
                }
            }
            let k = lemma_piece_at_place(shorter, sep, i, j);
            assert(s.subrange(i, j) =~= shorter.subrange(i, j));
            if s.last() != sep {
                assert(j < n);
                assert(pieces[k] == before[k]);
            }
            k
        }
    }
}

/// What is left between white space and does not begin or end with any is what trimming
/// leaves.
pub proof fn lemma_trims_unique(s: Seq<char>, t: Seq<char>, a: int, b: int)
    requires
        trims(s, t, a, b),
        a < b,
    ensures
        trimmed(s) == t,
{
    law_trimming_takes_off_white_space(s);
    let (c, d) = choose|c: int, d: int| #[trigger] trims(s, trimmed(s), c, d);
    assert(c <= a) by {
        if a < c {
            assert(is_white_space(s[a]));
        }
    }
    assert(b <= d) by {
        if d < b {
            assert(is_white_space(s[b - 1]));
        }
    }
    assert(a <= c) by {
        if c < a {
            assert(is_white_space(s[c]));
        }
    }
    assert(d <= b) by {
        if b < d {
            assert(is_white_space(s[d - 1]));
        }
    }
}

} // verus!
