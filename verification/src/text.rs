//! Verified text building blocks for the markdown and URL rendering: decimal
//! rendering of counters, substring search for the spam scan, and the
//! joining and listing of string collections.

use vstd::prelude::*;

verus! {

/// The views of a sequence of strings.
pub open spec fn views_of(items: Seq<String>) -> Seq<Seq<char>> {
    items.map_values(|s: String| s@)
}

/// The character for one decimal digit.
pub open spec fn dec_digit(d: nat) -> char {
    if d == 0 {
        '0'
    } else if d == 1 {
        '1'
    } else if d == 2 {
        '2'
    } else if d == 3 {
        '3'
    } else if d == 4 {
        '4'
    } else if d == 5 {
        '5'
    } else if d == 6 {
        '6'
    } else if d == 7 {
        '7'
    } else if d == 8 {
        '8'
    } else {
        '9'
    }
}

/// The decimal rendering of `n`, most significant digit first, no sign and
/// no leading zeros (a single `'0'` for zero).
pub open spec fn dec_str(n: nat) -> Seq<char>
    decreases n,
{
    if n < 10 {
        seq![dec_digit(n)]
    } else {
        dec_str(n / 10) + seq![dec_digit(n % 10)]
    }
}

fn digit_literal(d: u64) -> (r: &'static str)
    requires
        d < 10,
    ensures
        r@ == seq![dec_digit(d as nat)],
{
    proof {
        reveal_strlit("0");
        reveal_strlit("1");
        reveal_strlit("2");
        reveal_strlit("3");
        reveal_strlit("4");
        reveal_strlit("5");
        reveal_strlit("6");
        reveal_strlit("7");
        reveal_strlit("8");
        reveal_strlit("9");
    }
    let r: &'static str = if d == 0 {
        "0"
    } else if d == 1 {
        "1"
    } else if d == 2 {
        "2"
    } else if d == 3 {
        "3"
    } else if d == 4 {
        "4"
    } else if d == 5 {
        "5"
    } else if d == 6 {
        "6"
    } else if d == 7 {
        "7"
    } else if d == 8 {
        "8"
    } else {
        "9"
    };
    proof {
        assert(r@ =~= seq![dec_digit(d as nat)]);
    }
    r
}

/// Appends the decimal rendering of `n` to `out`.
pub fn push_dec(out: &mut String, n: u64)
    ensures
        final(out)@ == old(out)@ + dec_str(n as nat),
    decreases n,
{
    if n >= 10 {
        push_dec(out, n / 10);
        out.append(digit_literal(n % 10));
    } else {
        out.append(digit_literal(n));
    }
    proof {
        assert(out@ =~= old(out)@ + dec_str(n as nat));
    }
}

/// `needle` occurs in `hay` as a contiguous run of characters (always true of
/// an empty `needle`).
pub open spec fn contains_seq(hay: Seq<char>, needle: Seq<char>) -> bool {
    exists|k: int|
        0 <= k <= hay.len() - needle.len() && #[trigger] hay.subrange(k, k + needle.len())
            == needle
}

/// Whether `needle` occurs in `hay`, by direct character comparison.
pub fn contains_str(hay: &str, needle: &str) -> (r: bool)
    ensures
        r == contains_seq(hay@, needle@),
{
    let n = hay.unicode_len();
    let m = needle.unicode_len();
    if m == 0 {
        proof {
            assert(hay@.subrange(0, 0 + needle@.len() as int) =~= needle@);
            assert(contains_seq(hay@, needle@));
        }
        return true;
    }
    if m > n {
        return false;
    }
    let mut start: usize = 0;
    while start <= n - m
        invariant
            1 <= m <= n,
            n == hay@.len(),
            m == needle@.len(),
            start <= n - m + 1,
            forall|k: int|
                0 <= k < start ==> #[trigger] hay@.subrange(k, k + needle@.len()) != needle@,
        decreases n - m + 1 - start,
    {
        let mut j: usize = 0;
        while j < m && hay.get_char(start + j) == needle.get_char(j)
            invariant
                1 <= m <= n,
                n == hay@.len(),
                m == needle@.len(),
                start + m <= n,
                j <= m,
                forall|t: int| 0 <= t < j ==> hay@[start + t] == needle@[t],
            decreases m - j,
        {
            j += 1;
        }
        if j == m {
            proof {
                assert(hay@.subrange(start as int, start + m) =~= needle@);
            }
            return true;
        }
        proof {
            assert(hay@.subrange(start as int, start + needle@.len())[j as int] == hay@[start
                + j]);
            assert(hay@.subrange(start as int, start + needle@.len()) != needle@);
        }
        start += 1;
    }
    proof {
        assert forall|k: int|
            0 <= k <= hay@.len() - needle@.len() implies #[trigger] hay@.subrange(
            k,
            k + needle@.len(),
        ) != needle@ by {
            assert(k < start);
        }
    }
    false
}

/// The items laid end to end with `sep` between each pair.
pub open spec fn join_with(items: Seq<Seq<char>>, sep: Seq<char>) -> Seq<char>
    decreases items.len(),
{
    if items.len() == 0 {
        Seq::empty()
    } else if items.len() == 1 {
        items[0]
    } else {
        items[0] + sep + join_with(items.drop_first(), sep)
    }
}

proof fn lemma_join_push(s: Seq<Seq<char>>, sep: Seq<char>, x: Seq<char>)
    requires
        s.len() >= 1,
    ensures
        join_with(s.push(x), sep) == join_with(s, sep) + sep + x,
    decreases s.len(),
{
    let sp = s.push(x);
    if s.len() == 1 {
        assert(sp.drop_first() =~= seq![x]);
        assert(join_with(seq![x], sep) == x);
        assert(join_with(sp, sep) == sp[0] + sep + join_with(sp.drop_first(), sep));
        assert(sp[0] == s[0]);
        assert(join_with(sp, sep) =~= join_with(s, sep) + sep + x);
    } else {
        assert(sp.drop_first() =~= s.drop_first().push(x));
        lemma_join_push(s.drop_first(), sep, x);
        assert(join_with(sp, sep) == sp[0] + sep + join_with(sp.drop_first(), sep));
        assert(sp[0] == s[0]);
        assert(join_with(sp, sep) =~= join_with(s, sep) + sep + x);
    }
}

/// The items of `items` joined with `sep` between each pair, as
/// `str::join` lays them out.
pub fn join_strings(items: &Vec<String>, sep: &str) -> (r: String)
    ensures
        r@ == join_with(views_of(items@), sep@),
{
    let mut r = String::new();
    let mut i: usize = 0;
    while i < items.len()
        invariant
            i <= items@.len(),
            r@ == join_with(views_of(items@).take(i as int), sep@),
        decreases items@.len() - i,
    {
        if i > 0 {
            r.append(sep);
        }
        r.append(items[i].as_str());
        proof {
            let vs = views_of(items@);
            assert(vs.take(i + 1) =~= vs.take(i as int).push(vs[i as int]));
            if i > 0 {
                lemma_join_push(vs.take(i as int), sep@, vs[i as int]);
            }
            assert(r@ =~= join_with(vs.take(i + 1), sep@));
        }
        i += 1;
    }
    proof {
        assert(views_of(items@).take(items@.len() as int) =~= views_of(items@));
    }
    r
}

/// Each item as one markdown bullet line.
pub open spec fn bullet_lines(items: Seq<Seq<char>>) -> Seq<char>
    decreases items.len(),
{
    if items.len() == 0 {
        Seq::empty()
    } else {
        "- "@ + items[0] + "\n"@ + bullet_lines(items.drop_first())
    }
}

proof fn lemma_bullet_push(s: Seq<Seq<char>>, x: Seq<char>)
    ensures
        bullet_lines(s.push(x)) == bullet_lines(s) + ("- "@ + x + "\n"@),
    decreases s.len(),
{
    let sp = s.push(x);
    if s.len() == 0 {
        assert(sp.drop_first() =~= Seq::<Seq<char>>::empty());
        assert(bullet_lines(sp) == "- "@ + sp[0] + "\n"@ + bullet_lines(sp.drop_first()));
        assert(bullet_lines(sp.drop_first()) == Seq::<char>::empty());
        assert(sp[0] == x);
        assert(bullet_lines(sp) =~= bullet_lines(s) + ("- "@ + x + "\n"@));
    } else {
        assert(sp.drop_first() =~= s.drop_first().push(x));
        lemma_bullet_push(s.drop_first(), x);
        assert(bullet_lines(sp) == "- "@ + sp[0] + "\n"@ + bullet_lines(sp.drop_first()));
        assert(sp[0] == s[0]);
        assert(bullet_lines(sp) =~= bullet_lines(s) + ("- "@ + x + "\n"@));
    }
}

/// Appends one bullet line per item to `out`.
pub fn push_bullet_lines(out: &mut String, items: &Vec<String>)
    ensures
        final(out)@ == old(out)@ + bullet_lines(views_of(items@)),
{
    let mut i: usize = 0;
    while i < items.len()
        invariant
            i <= items@.len(),
            out@ == old(out)@ + bullet_lines(views_of(items@).take(i as int)),
        decreases items@.len() - i,
    {
        out.append("- ");
        out.append(items[i].as_str());
        out.append("\n");
        proof {
            let vs = views_of(items@);
            assert(vs.take(i + 1) =~= vs.take(i as int).push(vs[i as int]));
            lemma_bullet_push(vs.take(i as int), vs[i as int]);
            assert(out@ =~= old(out)@ + bullet_lines(vs.take(i + 1)));
        }
        i += 1;
    }
    proof {
        assert(views_of(items@).take(items@.len() as int) =~= views_of(items@));
    }
}

/// Each item as one numbered markdown line, counting up from `start`.
pub open spec fn numbered_lines(items: Seq<Seq<char>>, start: nat) -> Seq<char>
    decreases items.len(),
{
    if items.len() == 0 {
        Seq::empty()
    } else {
        dec_str(start) + ". "@ + items[0] + "\n"@ + numbered_lines(items.drop_first(), start + 1)
    }
}

proof fn lemma_numbered_push(s: Seq<Seq<char>>, x: Seq<char>, start: nat)
    ensures
        numbered_lines(s.push(x), start) == numbered_lines(s, start) + (dec_str(start + s.len())
            + ". "@ + x + "\n"@),
    decreases s.len(),
{
    let sp = s.push(x);
    if s.len() == 0 {
        assert(sp.drop_first() =~= Seq::<Seq<char>>::empty());
        assert(numbered_lines(sp, start) == dec_str(start) + ". "@ + sp[0] + "\n"@
            + numbered_lines(sp.drop_first(), start + 1));
        assert(numbered_lines(sp.drop_first(), start + 1) == Seq::<char>::empty());
        assert(sp[0] == x);
        assert(numbered_lines(sp, start) =~= numbered_lines(s, start) + (dec_str(start + s.len())
            + ". "@ + x + "\n"@));
    } else {
        assert(sp.drop_first() =~= s.drop_first().push(x));
        lemma_numbered_push(s.drop_first(), x, start + 1);
        assert(numbered_lines(sp, start) == dec_str(start) + ". "@ + sp[0] + "\n"@
            + numbered_lines(sp.drop_first(), start + 1));
        assert(sp[0] == s[0]);
        assert((start + 1) + s.drop_first().len() == start + s.len());
        assert(numbered_lines(sp, start) =~= numbered_lines(s, start) + (dec_str(start + s.len())
            + ". "@ + x + "\n"@));
    }
}

/// Appends one numbered line per item to `out`, counting up from 1.
pub fn push_numbered_lines(out: &mut String, items: &Vec<String>)
    ensures
        final(out)@ == old(out)@ + numbered_lines(views_of(items@), 1),
{
    let mut i: usize = 0;
    while i < items.len()
        invariant
            i <= items@.len(),
            out@ == old(out)@ + numbered_lines(views_of(items@).take(i as int), 1),
        decreases items@.len() - i,
    {
        push_dec(out, (i as u64) + 1);
        out.append(". ");
        out.append(items[i].as_str());
        out.append("\n");
        proof {
            let vs = views_of(items@);
            assert(vs.take(i + 1) =~= vs.take(i as int).push(vs[i as int]));
            lemma_numbered_push(vs.take(i as int), vs[i as int], 1);
            assert((i as u64) + 1 == 1 + vs.take(i as int).len());
            assert(out@ =~= old(out)@ + numbered_lines(vs.take(i + 1), 1));
        }
        i += 1;
    }
    proof {
        assert(views_of(items@).take(items@.len() as int) =~= views_of(items@));
    }
}

} // verus!
