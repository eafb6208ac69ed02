//! Character-level helpers: whitespace, decimal rendering, joining fields.
use vstd::prelude::*;

verus! {

/// The characters that carry Unicode's `White_Space` property.
pub open spec fn is_space(c: char) -> bool {
    let u = c as u32;
    (0x09 <= u <= 0x0d) || u == 0x20 || u == 0x85 || u == 0xa0 || u == 0x1680 || (0x2000 <= u
        <= 0x200a) || u == 0x2028 || u == 0x2029 || u == 0x202f || u == 0x205f || u == 0x3000
}

pub fn is_space_char(c: char) -> (r: bool)
    ensures
        r == is_space(c),
{
    let u = c as u32;
    (0x09 <= u && u <= 0x0d) || u == 0x20 || u == 0x85 || u == 0xa0 || u == 0x1680 || (0x2000 <= u
        && u <= 0x200a) || u == 0x2028 || u == 0x2029 || u == 0x202f || u == 0x205f || u == 0x3000
}

/// The character of a decimal digit.
pub open spec fn digit_char(d: nat) -> char {
    if d == 0 {
        '0'
    } else if d == 1 {
        '1'
    } else if d == 2 {
        '2'
    } else if d == 3 {
        '3'
    } else if d == 4 {
        '4'
    } else if d == 5 {
        '5'
    } else if d == 6 {
        '6'
    } else if d == 7 {
        '7'
    } else if d == 8 {
        '8'
    } else {
        '9'
    }
}

/// Base-10 text of a natural number, without padding.
pub open spec fn decimal(n: nat) -> Seq<char>
    decreases n,
{
    if n < 10 {
        seq![digit_char(n)]
    } else {
        decimal(n / 10).push(digit_char(n % 10))
    }
}

/// Base-10 text of an integer, with a leading `-` when it is negative.
pub open spec fn signed_decimal(v: int) -> Seq<char> {
    if v < 0 {
        seq!['-'] + decimal((-v) as nat)
    } else {
        decimal(v as nat)
    }
}

/// Number of occurrences of `c` in `s`.
pub open spec fn count_char(s: Seq<char>, c: char) -> nat
    decreases s.len(),
{
    if s.len() == 0 {
        0
    } else {
        count_char(s.drop_last(), c) + if s.last() == c {
            1nat
        } else {
            0nat
        }
    }
}

/// The fields joined into one text, with `sep` between each two neighbours.
pub open spec fn join(fs: Seq<Seq<char>>, sep: char) -> Seq<char>
    decreases fs.len(),
{
    if fs.len() == 0 {
        Seq::empty()
    } else if fs.len() == 1 {
        fs[0]
    } else {
        join(fs.drop_last(), sep) + seq![sep] + fs.last()
    }
}

pub proof fn lemma_count_concat(a: Seq<char>, b: Seq<char>, c: char)
    ensures
        count_char(a + b, c) == count_char(a, c) + count_char(b, c),
    decreases b.len(),
{
    if b.len() == 0 {
        assert(a + b =~= a);
    } else {
        lemma_count_concat(a, b.drop_last(), c);
        assert((a + b).drop_last() =~= a + b.drop_last());
    }
}

pub proof fn lemma_count_single(x: char, c: char)
    ensures
        count_char(seq![x], c) == if x == c {
            1nat
        } else {
            0nat
        },
{
    assert(seq![x].drop_last() =~= Seq::<char>::empty());
    assert(count_char(Seq::<char>::empty(), c) == 0);
}

pub proof fn lemma_decimal_has_no(n: nat, c: char)
    requires
        c == '\t' || c == '\n',
    ensures
        count_char(decimal(n), c) == 0,
    decreases n,
{
    if n < 10 {
        lemma_count_single(digit_char(n), c);
    } else {
        lemma_decimal_has_no(n / 10, c);
        assert(decimal(n).drop_last() =~= decimal(n / 10));
        assert(decimal(n).last() == digit_char(n % 10));
    }
}

pub proof fn lemma_signed_decimal_has_no(v: int, c: char)
    requires
        c == '\t' || c == '\n',
    ensures
        count_char(signed_decimal(v), c) == 0,
{
    if v < 0 {
        lemma_decimal_has_no((-v) as nat, c);
        lemma_count_concat(seq!['-'], decimal((-v) as nat), c);
        lemma_count_single('-', c);
    } else {
        lemma_decimal_has_no(v as nat, c);
    }
}

/// Joining `n` fields that hold no separator gives a text with exactly `n - 1` separators.
pub proof fn lemma_join_count(fs: Seq<Seq<char>>, sep: char)
    requires
        fs.len() >= 1,
        forall|i: int| 0 <= i < fs.len() ==> count_char(#[trigger] fs[i], sep) == 0,
    ensures
        count_char(join(fs, sep), sep) == fs.len() - 1,
    decreases fs.len(),
{
    if fs.len() > 1 {
        let init = fs.drop_last();
        assert forall|i: int| 0 <= i < init.len() implies count_char(#[trigger] init[i], sep)
            == 0 by {
            assert(init[i] == fs[i]);
        }
        lemma_join_count(init, sep);
        lemma_count_concat(join(init, sep), seq![sep], sep);
        lemma_count_concat(join(init, sep) + seq![sep], fs.last(), sep);
        lemma_count_single(sep, sep);
        assert(count_char(fs[fs.len() - 1], sep) == 0);
    }
}

/// A text none of whose characters is `c` holds no `c`.
pub proof fn lemma_count_none(s: Seq<char>, c: char)
    requires
        forall|i: int| 0 <= i < s.len() ==> s[i] != c,
    ensures
        count_char(s, c) == 0,
    decreases s.len(),
{
    if s.len() > 0 {
        lemma_count_none(s.drop_last(), c);
    }
}

/// Joining fields that hold no `c` with a separator other than `c` gives a text without `c`.
pub proof fn lemma_join_count_other(fs: Seq<Seq<char>>, sep: char, c: char)
    requires
        c != sep,
        forall|i: int| 0 <= i < fs.len() ==> count_char(#[trigger] fs[i], c) == 0,
    ensures
        count_char(join(fs, sep), c) == 0,
    decreases fs.len(),
{
    if fs.len() == 0 {
    } else if fs.len() > 1 {
        let init = fs.drop_last();
        assert forall|i: int| 0 <= i < init.len() implies count_char(#[trigger] init[i], c)
            == 0 by {
            assert(init[i] == fs[i]);
        }
        lemma_join_count_other(init, sep, c);
        lemma_count_concat(join(init, sep), seq![sep], c);
        lemma_count_concat(join(init, sep) + seq![sep], fs.last(), c);
        lemma_count_single(sep, c);
        assert(count_char(fs[fs.len() - 1], c) == 0);
    } else {
        assert(count_char(fs[0], c) == 0);
    }
}

fn digit_of(d: u64) -> (c: char)
    requires
        d < 10,
    ensures
        c == digit_char(d as nat),
{
    if d == 0 {
        '0'
    } else if d == 1 {
        '1'
    } else if d == 2 {
        '2'
    } else if d == 3 {
        '3'
    } else if d == 4 {
        '4'
    } else if d == 5 {
        '5'
    } else if d == 6 {
        '6'
    } else if d == 7 {
        '7'
    } else if d == 8 {
        '8'
    } else {
        '9'
    }
}

/// Appends the base-10 text of `n`.
pub fn push_decimal(out: &mut Vec<char>, n: u64)
    ensures
        final(out)@ == old(out)@ + decimal(n as nat),
    decreases n,
{
    let ghost start = out@;
    if n >= 10 {
        push_decimal(out, n / 10);
    }
    out.push(digit_of(n % 10));
    assert(out@ =~= start + decimal(n as nat));
}

/// Appends the base-10 text of `v`, signed.
pub fn push_signed_decimal(out: &mut Vec<char>, v: i64)
    requires
        v > i64::MIN,
    ensures
        final(out)@ == old(out)@ + signed_decimal(v as int),
{
    let ghost start = out@;
    if v < 0 {
        out.push('-');
        push_decimal(out, (-v) as u64);
        assert(out@ =~= start + signed_decimal(v as int));
    } else {
        push_decimal(out, v as u64);
    }
}

/// Appends every character of `src`.
pub fn push_all(out: &mut Vec<char>, src: &Vec<char>)
    ensures
        final(out)@ == old(out)@ + src@,
{
    let ghost start = out@;
    let mut i: usize = 0;
    while i < src.len()
        invariant
            i <= src.len(),
            out@ == start + src@.subrange(0, i as int),
        decreases src.len() - i,
    {
        out.push(src[i]);
        i = i + 1;
        assert(out@ =~= start + src@.subrange(0, i as int));
    }
    assert(src@.subrange(0, src@.len() as int) =~= src@);
}

/// Joins the fields with `sep` between each two neighbours.
pub fn join_fields(fs: &Vec<Vec<char>>, sep: char) -> (r: Vec<char>)
    ensures
        r@ == join(fs@.map_values(|f: Vec<char>| f@), sep),
{
    let ghost views = fs@.map_values(|f: Vec<char>| f@);
    let mut out: Vec<char> = Vec::new();
    if fs.len() == 0 {
        assert(views.len() == 0);
        return out;
    }
    push_all(&mut out, &fs[0]);
    assert(views.subrange(0, 1).drop_last().len() == 0);
    assert(out@ == join(views.subrange(0, 1), sep));
    let mut i: usize = 1;
    while i < fs.len()
        invariant
            1 <= i <= fs.len(),
            views == fs@.map_values(|f: Vec<char>| f@),
            out@ == join(views.subrange(0, i as int), sep),
        decreases fs.len() - i,
    {
        out.push(sep);
        push_all(&mut out, &fs[i]);
        assert(views.subrange(0, i + 1).drop_last() =~= views.subrange(0, i as int));
        i = i + 1;
    }
    assert(views.subrange(0, fs.len() as int) =~= views);
    out
}

/// Relies on `str::chars` collected into a `Vec`: the characters of `s`, in order.
#[verifier::external_body]
pub(crate) fn chars_of(s: &str) -> (r: Vec<char>)
    ensures
        r@ == s@,
{
    s.chars().collect()
}

/// Relies on `String`'s `FromIterator<&char>`: a `String` of exactly these characters, in order.
#[verifier::external_body]
pub(crate) fn string_of(cs: &Vec<char>) -> (r: String)
    ensures
        r@ == cs@,
{
    cs.iter().collect()
}

/// Whether two texts hold the same characters.
pub fn text_eq(a: &str, b: &str) -> (r: bool)
    ensures
        r == (a@ == b@),
{
    let x = chars_of(a);
    let y = chars_of(b);
    if x.len() != y.len() {
        assert(a@.len() != b@.len());
        return false;
    }
    let mut i: usize = 0;
    while i < x.len()
        invariant
            i <= x.len(),
            x.len() == y.len(),
            x@ == a@,
            y@ == b@,
            forall|k: int| 0 <= k < i ==> x@[k] == y@[k],
        decreases x.len() - i,
    {
        if x[i] != y[i] {
            assert(x@[i as int] != y@[i as int]);
            return false;
        }
        i = i + 1;
    }
    assert(x@ =~= y@);
    true
}

} // verus!
