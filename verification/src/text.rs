//! Character-level helpers for the small text formats the tray reads and writes:
//! splitting on a separator, trimming Unicode white space, and decimal numbers.

use vstd::prelude::*;

verus! {

/// Appends one character to a string (`String::push`).
#[verifier::external_body]
pub(crate) fn push_char(s: &mut String, c: char)
    ensures
        final(s)@ == old(s)@.push(c),
{
    s.push(c);
}

/// The contents of an optional string, as characters.
pub open spec fn opt_chars(o: Option<String>) -> Option<Seq<char>> {
    match o {
        Some(s) => Some(s@),
        None => None,
    }
}

/// The contents of an optional string slice, as characters.
pub open spec fn opt_str_chars(o: Option<&str>) -> Option<Seq<char>> {
    match o {
        Some(s) => Some(s@),
        None => None,
    }
}

/// The characters of a string slice, in order.
pub fn chars_of(s: &str) -> (v: Vec<char>)
    ensures
        v@ == s@,
{
    broadcast use vstd::string::group_string_axioms;

    let mut v: Vec<char> = Vec::new();
    for c in it: s.chars()
        invariant
            it.seq() == s@,
            v@ == s@.take(it.index()),
    {
        v.push(c);
    }
    assert(v@ =~= s@);
    v
}

/// A string holding the characters `s[from..to]`.
pub fn string_of(s: &Vec<char>, from: usize, to: usize) -> (r: String)
    requires
        from <= to <= s.len(),
    ensures
        r@ == s@.subrange(from as int, to as int),
{
    let mut r = String::new();
    let mut i = from;
    while i < to
        invariant
            from <= i <= to <= s.len(),
            r@ == s@.subrange(from as int, i as int),
        decreases to - i,
    {
        push_char(&mut r, s[i]);
        i += 1;
        assert(r@ =~= s@.subrange(from as int, i as int));
    }
    r
}

/// The pieces of `s` between occurrences of `sep`, as `str::split` yields them:
/// `n` separators give `n + 1` pieces, empty pieces included.
pub open spec fn split_on(s: Seq<char>, sep: char) -> Seq<Seq<char>>
    decreases s.len(),
{
    if s.len() == 0 {
        seq![Seq::empty()]
    } else {
        let pieces = split_on(s.drop_last(), sep);
        if s.last() == sep {
            pieces.push(Seq::empty())
        } else {
            pieces.update(pieces.len() - 1, pieces.last().push(s.last()))
        }
    }
}

/// Splitting always yields at least one piece.
pub proof fn lemma_split_nonempty(s: Seq<char>, sep: char)
    ensures
        split_on(s, sep).len() >= 1,
    decreases s.len(),
{
    if s.len() > 0 {
        lemma_split_nonempty(s.drop_last(), sep);
    }
}

/// The character sequences held by a vector of pieces.
pub open spec fn pieces_view(v: Seq<Vec<char>>) -> Seq<Seq<char>> {
    v.map_values(|p: Vec<char>| p@)
}

/// No piece of a split holds the separator.
pub proof fn lemma_split_pieces_lack_separator(s: Seq<char>, sep: char)
    ensures
        forall|i: int|
            0 <= i < split_on(s, sep).len() ==> !(#[trigger] split_on(s, sep)[i]).contains(sep),
    decreases s.len(),
{
    if s.len() > 0 {
        let prev = s.drop_last();
        lemma_split_pieces_lack_separator(prev, sep);
        lemma_split_nonempty(prev, sep);
        let pieces = split_on(prev, sep);
        if s.last() != sep {
            let grown = pieces.last().push(s.last());
            assert forall|k: int| 0 <= k < grown.len() implies grown[k] != sep by {
                if k < pieces.last().len() {
                    assert(grown[k] == pieces.last()[k]);
                    assert(!pieces[pieces.len() - 1].contains(sep));
                }
            }
        }
    }
}

/// Text without the separator is a single piece.
pub proof fn lemma_split_without_separator(s: Seq<char>, sep: char)
    requires
        !s.contains(sep),
    ensures
        split_on(s, sep) == seq![s],
    decreases s.len(),
{
    if s.len() > 0 {
        let prev = s.drop_last();
        assert(!prev.contains(sep)) by {
            if prev.contains(sep) {
                let k = choose|k: int| 0 <= k < prev.len() && prev[k] == sep;
                assert(s[k] == sep);
            }
        }
        lemma_split_without_separator(prev, sep);
        assert(s.last() != sep);
        assert(prev.push(s.last()) =~= s);
        assert(split_on(s, sep) =~= seq![s]);
    } else {
        assert(s =~= Seq::<char>::empty());
    }
}

/// Appending a separator and separator-free text adds that text as one more piece.
pub proof fn lemma_split_append_piece(x: Seq<char>, y: Seq<char>, sep: char)
    requires
        !y.contains(sep),
    ensures
        split_on(x + seq![sep] + y, sep) == split_on(x, sep).push(y),
    decreases y.len(),
{
    let w = x + seq![sep] + y;
    if y.len() == 0 {
        assert(w.drop_last() =~= x);
        assert(y =~= Seq::<char>::empty());
    } else {
        let z = y.drop_last();
        assert(!z.contains(sep)) by {
            if z.contains(sep) {
                let k = choose|k: int| 0 <= k < z.len() && z[k] == sep;
                assert(y[k] == sep);
            }
        }
        lemma_split_append_piece(x, z, sep);
        assert((x + seq![sep] + y).drop_last() =~= x + seq![sep] + z);
        assert(y.last() != sep);
        assert(w.last() == y.last());
        assert(z.push(y.last()) =~= y);
        let p = split_on(x, sep).push(z);
        assert(split_on(w, sep) == p.update(p.len() - 1, p.last().push(w.last())));
        assert(p.update(p.len() - 1, p.last().push(w.last())) =~= split_on(x, sep).push(y));
    }
}

/// The pieces joined back with the separator between them.
pub open spec fn join_pieces(pieces: Seq<Seq<char>>, sep: char) -> Seq<char>
    decreases pieces.len(),
{
    if pieces.len() == 0 {
        Seq::empty()
    } else if pieces.len() == 1 {
        pieces[0]
    } else {
        join_pieces(pieces.drop_last(), sep) + seq![sep] + pieces.last()
    }
}

/// Splitting loses nothing: joining the pieces with the separator gives the text
/// back, and no piece holds the separator.
pub proof fn lemma_split_join(s: Seq<char>, sep: char)
    ensures
        join_pieces(split_on(s, sep), sep) == s,
        forall|i: int|
            0 <= i < split_on(s, sep).len() ==> !(#[trigger] split_on(s, sep)[i]).contains(sep),
    decreases s.len(),
{
    lemma_split_pieces_lack_separator(s, sep);
    if s.len() == 0 {
        assert(s =~= Seq::<char>::empty());
    } else {
        let prev = s.drop_last();
        lemma_split_join(prev, sep);
        lemma_split_nonempty(prev, sep);
        let q = split_on(prev, sep);
        if s.last() == sep {
            let p = q.push(Seq::<char>::empty());
            assert(p.drop_last() =~= q);
            assert(join_pieces(p, sep) =~= prev.push(sep));
        } else {
            let p = q.update(q.len() - 1, q.last().push(s.last()));
            if q.len() == 1 {
                assert(join_pieces(p, sep) == p[0]);
                assert(p[0] =~= prev.push(s.last()));
            } else {
                assert(p.drop_last() =~= q.drop_last());
                assert(join_pieces(q, sep) == join_pieces(q.drop_last(), sep) + seq![sep] + q.last());
                assert(join_pieces(p, sep) =~= prev.push(s.last()));
            }
        }
        assert(prev.push(s.last()) =~= s);
    }
}

/// Text after a separator never changes the first piece, and never lowers the
/// number of pieces.
pub proof fn lemma_split_first_piece_stable(x: Seq<char>, w: Seq<char>, sep: char)
    requires
        !x.contains(sep),
    ensures
        split_on(x.push(sep) + w, sep).len() >= 2,
        split_on(x.push(sep) + w, sep)[0] == x,
    decreases w.len(),
{
    if w.len() == 0 {
        assert(x.push(sep) + w =~= x.push(sep));
        assert(x.push(sep).drop_last() =~= x);
        lemma_split_without_separator(x, sep);
    } else {
        lemma_split_first_piece_stable(x, w.drop_last(), sep);
        assert((x.push(sep) + w).drop_last() =~= x.push(sep) + w.drop_last());
    }
}

/// The first piece of `x` followed by text that is empty or starts with the
/// separator is `x` itself, when `x` holds no separator.
pub proof fn lemma_split_first_piece(x: Seq<char>, rest: Seq<char>, sep: char)
    requires
        !x.contains(sep),
        rest.len() == 0 || rest[0] == sep,
    ensures
        split_on(x + rest, sep)[0] == x,
{
    if rest.len() == 0 {
        assert(x + rest =~= x);
        lemma_split_without_separator(x, sep);
    } else {
        lemma_split_first_piece_stable(x, rest.drop_first(), sep);
        assert(x.push(sep) + rest.drop_first() =~= x + rest);
    }
}

/// The pieces of `s` between occurrences of `sep`.
pub fn split_chars(s: &Vec<char>, sep: char) -> (r: Vec<Vec<char>>)
    ensures
        pieces_view(r@) == split_on(s@, sep),
{
    let mut done: Vec<Vec<char>> = Vec::new();
    let mut cur: Vec<char> = Vec::new();
    let mut i: usize = 0;
    assert(s@.take(0) =~= Seq::<char>::empty());
    while i < s.len()
        invariant
            i <= s.len(),
            pieces_view(done@).push(cur@) =~= split_on(s@.take(i as int), sep),
        decreases s.len() - i,
    {
        let c = s[i];
        let ghost prev = s@.take(i as int);
        proof {
            lemma_split_nonempty(prev, sep);
            assert(s@.take(i + 1).drop_last() =~= prev);
        }
        let ghost old_done = done@;
        if c == sep {
            let piece = cur;
            done.push(piece);
            cur = Vec::new();
            assert(pieces_view(done@) =~= pieces_view(old_done).push(piece@));
        } else {
            cur.push(c);
        }
        i += 1;
    }
    assert(s@.take(s.len() as int) =~= s@);
    let ghost old_done = done@;
    let ghost last = cur@;
    done.push(cur);
    assert(pieces_view(done@) =~= pieces_view(old_done).push(last));
    done
}

/// Unicode `White_Space` characters, the ones `str::trim` removes.
pub open spec fn is_white_space(c: char) -> bool {
    let x = c as u32;
    ||| 0x09 <= x <= 0x0D
    ||| x == 0x20
    ||| x == 0x85
    ||| x == 0xA0
    ||| x == 0x1680
    ||| 0x2000 <= x <= 0x200A
    ||| x == 0x2028
    ||| x == 0x2029
    ||| x == 0x202F
    ||| x == 0x205F
    ||| x == 0x3000
}

/// Whether `c` is a Unicode `White_Space` character.
pub fn white_space(c: char) -> (b: bool)
    ensures
        b == is_white_space(c),
{
    let x = c as u32;
    (0x09 <= x && x <= 0x0D) || x == 0x20 || x == 0x85 || x == 0xA0 || x == 0x1680 || (0x2000
        <= x && x <= 0x200A) || x == 0x2028 || x == 0x2029 || x == 0x202F || x == 0x205F || x
        == 0x3000
}

/// `s` without its leading white space.
pub open spec fn trim_start(s: Seq<char>) -> Seq<char>
    decreases s.len(),
{
    if s.len() > 0 && is_white_space(s[0]) {
        trim_start(s.drop_first())
    } else {
        s
    }
}

/// `s` without its trailing white space.
pub open spec fn trim_end(s: Seq<char>) -> Seq<char>
    decreases s.len(),
{
    if s.len() > 0 && is_white_space(s.last()) {
        trim_end(s.drop_last())
    } else {
        s
    }
}

/// `s` without leading and trailing white space, as `str::trim` gives it.
pub open spec fn trim(s: Seq<char>) -> Seq<char> {
    trim_end(trim_start(s))
}

/// The bounds `lo..hi` of `trim(s)` within `s`.
pub fn trim_bounds(s: &Vec<char>) -> (r: (usize, usize))
    ensures
        r.0 <= r.1 <= s.len(),
        s@.subrange(r.0 as int, r.1 as int) == trim(s@),
{
    let n = s.len();
    let mut lo: usize = 0;
    assert(s@.subrange(0, n as int) =~= s@);
    while lo < n && white_space(s[lo])
        invariant
            lo <= n == s.len(),
            trim_start(s@.subrange(lo as int, n as int)) == trim_start(s@),
        decreases n - lo,
    {
        assert(s@.subrange(lo as int, n as int).drop_first() =~= s@.subrange(lo + 1, n as int));
        lo += 1;
    }
    let mut hi: usize = n;
    while hi > lo && white_space(s[hi - 1])
        invariant
            lo <= hi <= n == s.len(),
            trim_end(s@.subrange(lo as int, hi as int)) == trim(s@),
        decreases hi,
    {
        assert(s@.subrange(lo as int, hi as int).drop_last() =~= s@.subrange(lo as int, hi - 1));
        hi -= 1;
    }
    (lo, hi)
}

/// The characters of `s` without leading and trailing white space.
pub fn trim_chars(s: &Vec<char>) -> (r: Vec<char>)
    ensures
        r@ == trim(s@),
{
    let (lo, hi) = trim_bounds(s);
    let mut r: Vec<char> = Vec::new();
    let mut i = lo;
    while i < hi
        invariant
            lo <= i <= hi <= s.len(),
            r@ == s@.subrange(lo as int, i as int),
        decreases hi - i,
    {
        r.push(s[i]);
        i += 1;
        assert(r@ =~= s@.subrange(lo as int, i as int));
    }
    r
}

/// Whether every character of `s` is white space.
pub open spec fn all_white_space(s: Seq<char>) -> bool {
    forall|i: int| 0 <= i < s.len() ==> is_white_space(#[trigger] s[i])
}

/// Leading white space goes, up to the first other character.
pub proof fn lemma_trim_start_padding(pad: Seq<char>, q: Seq<char>)
    requires
        all_white_space(pad),
        q.len() > 0,
        !is_white_space(q[0]),
    ensures
        trim_start(pad + q) == q,
    decreases pad.len(),
{
    if pad.len() > 0 {
        assert((pad + q)[0] == pad[0]);
        assert((pad + q).drop_first() =~= pad.drop_first() + q);
        assert(all_white_space(pad.drop_first())) by {
            assert forall|i: int| 0 <= i < pad.drop_first().len() implies is_white_space(
                #[trigger] pad.drop_first()[i],
            ) by {
                assert(pad.drop_first()[i] == pad[i + 1]);
            }
        }
        lemma_trim_start_padding(pad.drop_first(), q);
    } else {
        assert(pad + q =~= q);
    }
}

/// Trailing white space goes, back to the last other character.
pub proof fn lemma_trim_end_padding(q: Seq<char>, pad: Seq<char>)
    requires
        all_white_space(pad),
        q.len() > 0,
        !is_white_space(q.last()),
    ensures
        trim_end(q + pad) == q,
    decreases pad.len(),
{
    if pad.len() > 0 {
        assert((q + pad).last() == pad.last());
        assert((q + pad).drop_last() =~= q + pad.drop_last());
        assert(all_white_space(pad.drop_last())) by {
            assert forall|i: int| 0 <= i < pad.drop_last().len() implies is_white_space(
                #[trigger] pad.drop_last()[i],
            ) by {
                assert(pad.drop_last()[i] == pad[i]);
            }
        }
        lemma_trim_end_padding(q, pad.drop_last());
    } else {
        assert(q + pad =~= q);
    }
}

/// Leading white space removal drops a prefix of white space only, and leaves
/// nothing or text starting with another character.
pub proof fn lemma_trim_start_shape(s: Seq<char>)
    ensures
        exists|lo: int|
            0 <= lo <= s.len() && trim_start(s) == s.skip(lo) && all_white_space(s.take(lo)),
        trim_start(s).len() > 0 ==> !is_white_space(trim_start(s)[0]),
    decreases s.len(),
{
    if s.len() > 0 && is_white_space(s[0]) {
        lemma_trim_start_shape(s.drop_first());
        let lo = choose|lo: int|
            0 <= lo <= s.drop_first().len() && trim_start(s.drop_first()) == s.drop_first().skip(lo)
                && all_white_space(s.drop_first().take(lo));
        assert(s.drop_first().skip(lo) =~= s.skip(lo + 1));
        assert forall|i: int| 0 <= i < s.take(lo + 1).len() implies is_white_space(
            #[trigger] s.take(lo + 1)[i],
        ) by {
            if i > 0 {
                assert(s.take(lo + 1)[i] == s.drop_first().take(lo)[i - 1]);
            }
        }
    } else {
        assert(s.skip(0) =~= s);
        assert(s.take(0).len() == 0);
    }
}

/// Trailing white space removal drops a suffix of white space only, and leaves
/// nothing or text ending with another character.
pub proof fn lemma_trim_end_shape(s: Seq<char>)
    ensures
        exists|hi: int|
            0 <= hi <= s.len() && trim_end(s) == s.take(hi) && all_white_space(s.skip(hi)),
        trim_end(s).len() > 0 ==> !is_white_space(trim_end(s).last()),
    decreases s.len(),
{
    if s.len() > 0 && is_white_space(s.last()) {
        lemma_trim_end_shape(s.drop_last());
        let hi = choose|hi: int|
            0 <= hi <= s.drop_last().len() && trim_end(s.drop_last()) == s.drop_last().take(hi)
                && all_white_space(s.drop_last().skip(hi));
        assert(s.drop_last().take(hi) =~= s.take(hi));
        assert forall|i: int| 0 <= i < s.skip(hi).len() implies is_white_space(
            #[trigger] s.skip(hi)[i],
        ) by {
            if i < s.skip(hi).len() - 1 {
                assert(s.skip(hi)[i] == s.drop_last().skip(hi)[i]);
            } else {
                assert(s.skip(hi)[i] == s.last());
            }
        }
    } else {
        assert(s.take(s.len() as int) =~= s);
        assert(s.skip(s.len() as int).len() == 0);
    }
}

/// Trimming removes white space at both ends and nothing else: the result is a
/// stretch of `s` with only white space before and after it, and it neither
/// starts nor ends with white space.
pub proof fn lemma_trim_shape(s: Seq<char>)
    ensures
        exists|lo: int, hi: int|
            0 <= lo <= hi <= s.len() && trim(s) == s.subrange(lo, hi) && all_white_space(s.take(lo))
                && all_white_space(s.skip(hi)),
        trim(s).len() > 0 ==> !is_white_space(trim(s)[0]) && !is_white_space(trim(s).last()),
{
    lemma_trim_start_shape(s);
    let lo = choose|lo: int|
        0 <= lo <= s.len() && trim_start(s) == s.skip(lo) && all_white_space(s.take(lo));
    let t = s.skip(lo);
    lemma_trim_end_shape(t);
    let h = choose|h: int| 0 <= h <= t.len() && trim_end(t) == t.take(h) && all_white_space(t.skip(h));
    assert(t.take(h) =~= s.subrange(lo, lo + h));
    assert(t.skip(h) =~= s.skip(lo + h));
    if trim(s).len() > 0 {
        assert(trim(s)[0] == t[0]);
    }
    assert(0 <= lo <= lo + h <= s.len() && trim(s) == s.subrange(lo, lo + h) && all_white_space(
        s.take(lo),
    ) && all_white_space(s.skip(lo + h)));
}

/// The ASCII digit for `d < 10`.
pub open spec fn digit_char(d: int) -> char {
    (('0' as u32) + d) as char
}

/// Decimal notation of `n`, with no leading zeros.
pub open spec fn decimal(n: nat) -> Seq<char>
    decreases n,
{
    if n < 10 {
        seq![digit_char(n as int)]
    } else {
        decimal(n / 10).push(digit_char((n % 10) as int))
    }
}

/// Decimal notation reads back as the number it writes: it is a non-empty run of
/// ASCII digits, with no sign, whose value is `n`.
pub proof fn lemma_decimal_reads_back(n: nat)
    ensures
        decimal(n).len() > 0,
        all_digits(decimal(n)),
        decimal(n)[0] != '+',
        digits_value(decimal(n)) == n,
        n <= 255 ==> parse_u8_spec(decimal(n)) == Some(n as u8),
    decreases n,
{
    if n < 10 {
        let c = digit_char(n as int);
        assert(c as u32 == '0' as u32 + n);
        assert(decimal(n) == seq![c]);
        assert(decimal(n).drop_last() =~= Seq::<char>::empty());
        assert(digits_value(decimal(n)) == digits_value(decimal(n).drop_last()) * 10 + (
        decimal(n).last() as u32 - '0' as u32));
    } else {
        lemma_decimal_reads_back(n / 10);
        let c = digit_char((n % 10) as int);
        assert(c as u32 == '0' as u32 + n % 10);
        let d = decimal(n);
        assert(d.drop_last() =~= decimal(n / 10));
        assert(d.last() == c);
        assert(digits_value(d) == digits_value(d.drop_last()) * 10 + (d.last() as u32 - '0' as u32));
        assert((n / 10) * 10 + n % 10 == n);
        assert(d[0] == decimal(n / 10)[0]);
        assert forall|i: int| 0 <= i < d.len() implies is_digit(#[trigger] d[i]) by {
            if i < d.len() - 1 {
                assert(d[i] == decimal(n / 10)[i]);
            }
        }
    }
    assert(without_plus(decimal(n)) == decimal(n));
}

/// A number is accepted only as a non-empty text of ASCII digits `0` to `9`,
/// with at most a leading `+`; decimal notation above 255 is refused.
pub proof fn lemma_parse_u8_accepts_digits_only(s: Seq<char>, n: nat)
    ensures
        parse_u8_spec(s) is Some ==> s.len() > 0 && forall|i: int|
            0 <= i < s.len() ==> (i == 0 && s[i] == '+') || (48 <= (#[trigger] s[i]) as u32
                <= 57),
        n > 255 ==> parse_u8_spec(decimal(n)) is None,
{
    lemma_decimal_reads_back(n);
    assert(without_plus(decimal(n)) == decimal(n));
    if parse_u8_spec(s) is Some {
        let d = without_plus(s);
        assert forall|i: int| 0 <= i < s.len() implies (i == 0 && s[i] == '+') || (48 <= (
        #[trigger] s[i]) as u32 <= 57) by {
            if s.len() > 0 && s[0] == '+' {
                if i > 0 {
                    assert(s[i] == d[i - 1]);
                    assert(is_digit(d[i - 1]));
                }
            } else {
                assert(is_digit(d[i]));
            }
        }
    }
}

/// Appends the decimal notation of `n` to `s`.
pub fn push_decimal(s: &mut String, n: u8)
    ensures
        final(s)@ == old(s)@ + decimal(n as nat),
{
    reveal_with_fuel(decimal, 3);
    if n >= 100 {
        push_char(s, digit_for(n / 100));
    }
    if n >= 10 {
        push_char(s, digit_for((n / 10) % 10));
    }
    push_char(s, digit_for(n % 10));
    assert(final(s)@ =~= old(s)@ + decimal(n as nat));
}

/// The ASCII digit for `d`.
fn digit_for(d: u8) -> (c: char)
    requires
        d < 10,
    ensures
        c == digit_char(d as int),
{
    if d == 0 { '0' }
    else if d == 1 { '1' }
    else if d == 2 { '2' }
    else if d == 3 { '3' }
    else if d == 4 { '4' }
    else if d == 5 { '5' }
    else if d == 6 { '6' }
    else if d == 7 { '7' }
    else if d == 8 { '8' }
    else { '9' }
}

/// Whether `c` is an ASCII decimal digit.
pub open spec fn is_digit(c: char) -> bool {
    '0' as u32 <= c as u32 <= '9' as u32
}

/// The number written by the decimal digits `s` (0 for no digits).
pub open spec fn digits_value(s: Seq<char>) -> int
    decreases s.len(),
{
    if s.len() == 0 {
        0
    } else {
        digits_value(s.drop_last()) * 10 + (s.last() as u32 - '0' as u32)
    }
}

/// `s` without one leading `+` sign, if it has one.
pub open spec fn without_plus(s: Seq<char>) -> Seq<char> {
    if s.len() > 0 && s[0] == '+' {
        s.drop_first()
    } else {
        s
    }
}

/// Whether every character of `s` is an ASCII digit.
pub open spec fn all_digits(s: Seq<char>) -> bool {
    forall|i: int| 0 <= i < s.len() ==> is_digit(#[trigger] s[i])
}

/// What `str::parse::<u8>` gives for `s`: an optional `+` sign followed by one or
/// more ASCII digits whose value fits in a `u8`; anything else is refused.
pub open spec fn parse_u8_spec(s: Seq<char>) -> Option<u8> {
    let digits = without_plus(s);
    if digits.len() > 0 && all_digits(digits) && digits_value(digits) <= 255 {
        Some(digits_value(digits) as u8)
    } else {
        None
    }
}

/// Parses an unsigned byte the way `str::parse::<u8>` does.
pub fn parse_u8(s: &Vec<char>) -> (r: Option<u8>)
    ensures
        r == parse_u8_spec(s@),
{
    let n = s.len();
    let start: usize = if n > 0 && s[0] == '+' {
        1
    } else {
        0
    };
    let ghost digits = s@.subrange(start as int, n as int);
    assert(digits =~= without_plus(s@));
    if start == n {
        return None;
    }
    let mut acc: u32 = 0;
    let mut i = start;
    assert(s@.subrange(start as int, start as int) =~= Seq::<char>::empty());
    while i < n
        invariant
            start <= i <= n == s.len(),
            digits == s@.subrange(start as int, n as int),
            digits == without_plus(s@),
            forall|j: int| start <= j < i ==> is_digit(#[trigger] s@[j]),
            acc as int == if digits_value(s@.subrange(start as int, i as int)) < 256 {
                digits_value(s@.subrange(start as int, i as int))
            } else {
                256
            },
        decreases n - i,
    {
        let c = s[i];
        let x = c as u32;
        if x < '0' as u32 || x > '9' as u32 {
            assert(!is_digit(digits[i - start]));
            return None;
        }
        let ghost prefix = s@.subrange(start as int, i as int);
        assert(s@.subrange(start as int, i + 1).drop_last() =~= prefix);
        acc = acc * 10 + (x - '0' as u32);
        if acc > 256 {
            acc = 256;
        }
        i += 1;
    }
    assert(s@.subrange(start as int, n as int) =~= digits);
    assert forall|j: int| 0 <= j < digits.len() implies is_digit(#[trigger] digits[j]) by {
        assert(digits[j] == s@[start + j]);
    }
    if acc <= 255 {
        Some(acc as u8)
    } else {
        None
    }
}

} // verus!
