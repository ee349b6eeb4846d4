use vstd::prelude::*;

verus! {

/// Whether two string slices hold the same characters.
pub(crate) fn str_eq(a: &str, b: &str) -> (r: bool)
    ensures
        r == (a@ == b@),
{
    let x = chars_of(a);
    let y = chars_of(b);
    if x.len() != y.len() {
        return false;
    }
    let mut i: usize = 0;
    while i < x.len()
        invariant
            x@ == a@,
            y@ == b@,
            x@.len() == y@.len(),
            i <= x@.len(),
            forall|j: int| 0 <= j < i ==> x@[j] == y@[j],
        decreases x@.len() - i,
    {
        if x[i] != y[i] {
            return false;
        }
        i = i + 1;
    }
    assert(a@ =~= b@);
    true
}

/// Appends one character to a string.
/// Trusted: wraps `String::push`, which std documents as appending the
/// given `char` to the end of the `String`.
#[verifier::external_body]
pub(crate) fn push_char(s: &mut String, c: char)
    ensures
        final(s)@ == old(s)@.push(c),
{
    s.push(c);
}

/// The decimal digit character for `d` (`0 <= d < 10`).
pub open spec fn digit_char(d: nat) -> char {
    ((48 + d) as u32) as char
}

/// The shortest decimal rendering of `n`, as `Display` prints an unsigned
/// integer: no sign, no leading zeros, `"0"` for zero.
pub open spec fn decimal(n: nat) -> Seq<char>
    decreases n,
{
    if n < 10 {
        seq![digit_char(n)]
    } else {
        decimal(n / 10).push(digit_char(n % 10))
    }
}

/// Appends the decimal rendering of `n` to `s`.
pub fn push_decimal(s: &mut String, n: u64)
    ensures
        final(s)@ == old(s)@ + decimal(n as nat),
    decreases n,
{
    if n >= 10 {
        push_decimal(s, n / 10);
    }
    let d: u8 = (n % 10) as u8;
    let c: char = (48u8 + d) as char;
    assert(c == digit_char((n % 10) as nat));
    push_char(s, c);
    proof {
        if n >= 10 {
            assert(decimal(n as nat) == decimal((n / 10) as nat).push(digit_char((n % 10) as nat)));
        } else {
            assert(decimal(n as nat) == seq![digit_char(n as nat)]);
        }
    }
}

/// The characters of a string slice, one by one.
pub fn chars_of(s: &str) -> (v: Vec<char>)
    ensures
        v@ == s@,
{
    let n: usize = s.unicode_len();
    let mut v: Vec<char> = Vec::new();
    let mut i: usize = 0;
    while i < n
        invariant
            n == s@.len(),
            i <= n,
            v@ == s@.subrange(0, i as int),
        decreases n - i,
    {
        let c: char = s.get_char(i);
        v.push(c);
        i = i + 1;
        assert(v@ =~= s@.subrange(0, i as int));
    }
    assert(v@ =~= s@);
    v
}

} // verus!

verus! {

/// `s` with every occurrence of the non-empty pattern `p` replaced by `r`,
/// scanning left to right, occurrences not overlapping (as `str::replace`
/// does for a non-empty pattern).
pub open spec fn replaced(s: Seq<char>, p: Seq<char>, r: Seq<char>) -> Seq<char>
    decreases s.len(),
{
    if p.len() == 0 || s.len() < p.len() {
        s
    } else if s.subrange(0, p.len() as int) == p {
        r + replaced(s.skip(p.len() as int), p, r)
    } else {
        seq![s[0]] + replaced(s.skip(1), p, r)
    }
}

/// Whether `p` occurs in `v` at position `i`.
fn matches_at(v: &Vec<char>, i: usize, p: &Vec<char>) -> (b: bool)
    requires
        i <= v@.len(),
    ensures
        b == (i + p@.len() <= v@.len() && v@.subrange(i as int, i + p@.len()) == p@),
{
    if p.len() > v.len() - i {
        return false;
    }
    let mut k: usize = 0;
    while k < p.len()
        invariant
            i + p@.len() <= v.len(),
            k <= p@.len(),
            forall|j: int| 0 <= j < k ==> v@[i + j] == p@[j],
        decreases p@.len() - k,
    {
        if v[i + k] != p[k] {
            assert(v@.subrange(i as int, i + p@.len())[k as int] != p@[k as int]);
            return false;
        }
        k = k + 1;
    }
    assert(v@.subrange(i as int, i + p@.len()) =~= p@);
    true
}

/// Replaces every occurrence of the non-empty pattern `from` in `s` by `to`.
pub fn replace_all(s: &str, from: &str, to: &str) -> (out: String)
    requires
        from@.len() > 0,
    ensures
        out@ == replaced(s@, from@, to@),
{
    let v = chars_of(s);
    let p = chars_of(from);
    let mut out = String::new();
    let mut i: usize = 0;
    assert(s@.skip(0) =~= s@);
    while i < v.len()
        invariant
            v@ == s@,
            p@ == from@,
            p@.len() > 0,
            i <= v@.len(),
            out@ + replaced(s@.skip(i as int), from@, to@) == replaced(s@, from@, to@),
        decreases v@.len() - i,
    {
        let ghost rest = s@.skip(i as int);
        if matches_at(&v, i, &p) {
            assert(rest.subrange(0, p@.len() as int) =~= v@.subrange(i as int, i + p@.len()));
            assert(rest.skip(p@.len() as int) =~= s@.skip(i + p@.len()));
            out.append(to);
            i = i + p.len();
        } else {
            proof {
                if rest.len() >= p@.len() {
                    assert(rest.subrange(0, p@.len() as int) =~= v@.subrange(i as int, i + p@.len()));
                    assert(rest.skip(1) =~= s@.skip(i + 1));
                }
            }
            push_char(&mut out, v[i]);
            assert(seq![v@[i as int]] + replaced(rest.skip(1), from@, to@) == replaced(rest, from@, to@));
            assert(rest.skip(1) =~= s@.skip(i + 1));
            assert(out@ + replaced(s@.skip(i + 1), from@, to@) =~= replaced(s@, from@, to@));
            i = i + 1;
        }
    }
    assert(s@.skip(i as int) =~= Seq::<char>::empty());
    assert(out@ + Seq::<char>::empty() =~= out@);
    out
}

} // verus!

verus! {

/// The pieces of `s` between occurrences of the separator `c`, as
/// `str::split` with a `char` pattern yields them: always at least one piece,
/// an empty piece before a leading separator, after a trailing one, and
/// between two adjacent ones.
pub open spec fn split_pieces(s: Seq<char>, c: char) -> Seq<Seq<char>>
    decreases s.len(),
{
    if s.len() == 0 {
        seq![Seq::<char>::empty()]
    } else {
        let pre = split_pieces(s.drop_last(), c);
        if s.last() == c {
            pre.push(Seq::<char>::empty())
        } else {
            pre.update(pre.len() - 1, pre.last().push(s.last()))
        }
    }
}

/// The pieces joined back together, with `c` between consecutive pieces.
pub open spec fn joined(pieces: Seq<Seq<char>>, c: char) -> Seq<char>
    decreases pieces.len(),
{
    if pieces.len() <= 1 {
        if pieces.len() == 1 { pieces[0] } else { Seq::<char>::empty() }
    } else {
        joined(pieces.drop_last(), c).push(c) + pieces.last()
    }
}

/// There is always at least one piece, and no piece holds the separator.
pub proof fn lemma_split_pieces_shape(s: Seq<char>, c: char)
    ensures
        split_pieces(s, c).len() >= 1,
        forall|i: int| 0 <= i < split_pieces(s, c).len() ==> !(#[trigger] split_pieces(s, c)[i]).contains(c),
    decreases s.len(),
{
    if s.len() > 0 {
        lemma_split_pieces_shape(s.drop_last(), c);
        let pre = split_pieces(s.drop_last(), c);
        if s.last() != c {
            assert forall|i: int| 0 <= i < split_pieces(s, c).len() implies !(#[trigger] split_pieces(s, c)[i]).contains(c) by {
                if i == pre.len() - 1 {
                    let piece = pre.last().push(s.last());
                    assert(!pre[i].contains(c));
                    if piece.contains(c) {
                        let k = choose|k: int| 0 <= k < piece.len() && piece[k] == c;
                        if k < pre.last().len() {
                            assert(pre.last()[k] == c);
                        }
                    }
                }
            }
        } else {
            assert forall|i: int| 0 <= i < split_pieces(s, c).len() implies !(#[trigger] split_pieces(s, c)[i]).contains(c) by {
                if i < pre.len() {
                    assert(split_pieces(s, c)[i] == pre[i]);
                } else {
                    assert(split_pieces(s, c)[i] =~= Seq::<char>::empty());
                }
            }
        }
    }
}

/// Joining the pieces of a split with the same separator gives back the
/// original text.
pub proof fn lemma_join_split(s: Seq<char>, c: char)
    ensures
        joined(split_pieces(s, c), c) == s,
    decreases s.len(),
{
    if s.len() == 0 {
        assert(split_pieces(s, c) =~= seq![Seq::<char>::empty()]);
    } else {
        let init = s.drop_last();
        lemma_join_split(init, c);
        lemma_split_pieces_shape(init, c);
        let pre = split_pieces(init, c);
        if s.last() == c {
            let post = pre.push(Seq::<char>::empty());
            assert(post.drop_last() =~= pre);
            assert(joined(post, c) =~= joined(pre, c).push(c) + Seq::<char>::empty());
            assert(s =~= init.push(c));
        } else {
            lemma_join_last(pre, s.last(), c);
            assert(s =~= init.push(s.last()));
        }
    }
}

/// Extending the last piece by one character extends the joined text by
/// that character.
proof fn lemma_join_last(pieces: Seq<Seq<char>>, x: char, c: char)
    requires
        pieces.len() >= 1,
    ensures
        joined(pieces.update(pieces.len() - 1, pieces.last().push(x)), c) == joined(pieces, c).push(x),
{
    let post = pieces.update(pieces.len() - 1, pieces.last().push(x));
    if pieces.len() == 1 {
        assert(post[0] == pieces[0].push(x));
    } else {
        assert(post.drop_last() =~= pieces.drop_last());
        assert(joined(post, c) == joined(pieces.drop_last(), c).push(c) + pieces.last().push(x));
        assert(joined(pieces.drop_last(), c).push(c) + pieces.last().push(x) =~= (joined(
            pieces.drop_last(),
            c,
        ).push(c) + pieces.last()).push(x));
    }
}

/// Splits `s` at every occurrence of `c`.
pub fn split_on(s: &str, c: char) -> (pieces: Vec<String>)
    ensures
        pieces@.len() == split_pieces(s@, c).len(),
        forall|i: int| 0 <= i < pieces@.len() ==> (#[trigger] pieces@[i])@ == split_pieces(s@, c)[i],
{
    let v = chars_of(s);
    let mut done: Vec<String> = Vec::new();
    let mut cur = String::new();
    let mut i: usize = 0;
    assert(s@.subrange(0, 0) =~= Seq::<char>::empty());
    while i < v.len()
        invariant
            v@ == s@,
            i <= v@.len(),
            done@.len() + 1 == split_pieces(s@.subrange(0, i as int), c).len(),
            forall|j: int| 0 <= j < done@.len() ==> (#[trigger] done@[j])@ == split_pieces(s@.subrange(0, i as int), c)[j],
            cur@ == split_pieces(s@.subrange(0, i as int), c).last(),
        decreases v@.len() - i,
    {
        let ghost pre = split_pieces(s@.subrange(0, i as int), c);
        let ghost next = s@.subrange(0, i + 1);
        assert(next.drop_last() =~= s@.subrange(0, i as int));
        assert(next.last() == v@[i as int]);
        if v[i] == c {
            let finished = cur;
            done.push(finished);
            cur = String::new();
            assert(split_pieces(next, c) == pre.push(Seq::<char>::empty()));
        } else {
            push_char(&mut cur, v[i]);
            assert(split_pieces(next, c) == pre.update(pre.len() - 1, pre.last().push(v@[i as int])));
        }
        i = i + 1;
    }
    assert(s@.subrange(0, i as int) =~= s@);
    done.push(cur);
    done
}

} // verus!

verus! {

/// The number a text of decimal digits stands for.
pub open spec fn decimal_value(s: Seq<char>) -> int
    decreases s.len(),
{
    if s.len() == 0 {
        0
    } else {
        decimal_value(s.drop_last()) * 10 + (s.last() as int - 48)
    }
}

/// Reading the decimal rendering of a number back gives the number: the
/// rendering is made of digits only, and no two numbers share one.
pub proof fn lemma_decimal_value(n: nat)
    ensures
        decimal_value(decimal(n)) == n,
        decimal(n).len() >= 1,
        forall|i: int| 0 <= i < decimal(n).len() ==> '0' <= #[trigger] decimal(n)[i] <= '9',
    decreases n,
{
    if n < 10 {
        assert(decimal(n) == seq![digit_char(n)]);
        assert(decimal(n).drop_last() =~= Seq::<char>::empty());
        assert(digit_char(n) as int == 48 + n);
        assert(decimal_value(decimal(n).drop_last()) == 0);
        assert(decimal_value(decimal(n)) == decimal_value(decimal(n).drop_last()) * 10 + (decimal(n).last() as int - 48));
    } else {
        lemma_decimal_value(n / 10);
        let d = decimal(n);
        assert(d.drop_last() =~= decimal(n / 10));
        assert(d.last() == digit_char(n % 10));
        assert(digit_char(n % 10) as int == 48 + n % 10);
        assert((n / 10) * 10 + n % 10 == n);
        assert(decimal_value(d) == decimal_value(d.drop_last()) * 10 + (d.last() as int - 48));
        assert forall|i: int| 0 <= i < d.len() implies '0' <= #[trigger] d[i] <= '9' by {
            if i < d.len() - 1 {
                assert(d[i] == decimal(n / 10)[i]);
            }
        }
    }
}

/// Distinct numbers have distinct decimal renderings, also after a common
/// prefix.
pub proof fn lemma_decimal_distinct(prefix: Seq<char>, a: nat, b: nat)
    requires
        a != b,
    ensures
        prefix + decimal(a) != prefix + decimal(b),
{
    lemma_decimal_value(a);
    lemma_decimal_value(b);
    if prefix + decimal(a) == prefix + decimal(b) {
        assert((prefix + decimal(a)).skip(prefix.len() as int) =~= decimal(a));
        assert((prefix + decimal(b)).skip(prefix.len() as int) =~= decimal(b));
    }
}

/// Replacing a pattern by itself leaves the text as it was.
pub proof fn lemma_replaced_by_itself(s: Seq<char>, p: Seq<char>)
    ensures
        replaced(s, p, p) == s,
    decreases s.len(),
{
    if p.len() == 0 || s.len() < p.len() {
    } else if s.subrange(0, p.len() as int) == p {
        lemma_replaced_by_itself(s.skip(p.len() as int), p);
        assert(p + s.skip(p.len() as int) =~= s);
    } else {
        lemma_replaced_by_itself(s.skip(1), p);
        assert(seq![s[0]] + s.skip(1) =~= s);
    }
}

/// Whether `p` occurs in `s` at position `i`.
pub open spec fn occurs_at(s: Seq<char>, p: Seq<char>, i: int) -> bool {
    0 <= i && i + p.len() <= s.len() && s.subrange(i, i + p.len()) == p
}

/// A text without the pattern is left as it was.
pub proof fn lemma_replaced_absent(s: Seq<char>, p: Seq<char>, r: Seq<char>)
    requires
        forall|i: int| !#[trigger] occurs_at(s, p, i),
    ensures
        replaced(s, p, r) == s,
    decreases s.len(),
{
    if p.len() == 0 || s.len() < p.len() {
    } else {
        assert(!occurs_at(s, p, 0));
        let t = s.skip(1);
        assert forall|i: int| !#[trigger] occurs_at(t, p, i) by {
            assert(!occurs_at(s, p, i + 1));
            if 0 <= i && i + p.len() <= t.len() {
                assert(t.subrange(i, i + p.len()) =~= s.subrange(i + 1, i + 1 + p.len()));
            }
        }
        lemma_replaced_absent(t, p, r);
        assert(seq![s[0]] + t =~= s);
    }
}

} // verus!

verus! {

/// Whether `t` is a number as `Display` writes it: one or more decimal
/// digits, with no leading zero unless the number is zero itself.
pub open spec fn is_canonical_decimal(t: Seq<char>) -> bool {
    &&& t.len() >= 1
    &&& forall|i: int| 0 <= i < t.len() ==> '0' <= #[trigger] t[i] <= '9'
    &&& (t[0] == '0' ==> t.len() == 1)
}

/// The decimal rendering of a number is canonical: digits only, with no
/// leading zero (so a positive number does not start with `0`), and it
/// reads back as the number.
pub proof fn lemma_decimal_canonical(n: nat)
    ensures
        is_canonical_decimal(decimal(n)),
        decimal_value(decimal(n)) == n,
        n > 0 ==> decimal(n)[0] != '0',
    decreases n,
{
    lemma_decimal_value(n);
    if n >= 10 {
        lemma_decimal_canonical(n / 10);
        assert(decimal(n)[0] == decimal(n / 10)[0]);
    } else {
        assert(decimal(n) == seq![digit_char(n)]);
        assert(digit_char(n) as int == 48 + n);
    }
}

/// A canonical decimal text is the rendering of the number it stands for:
/// no other text renders that number.
pub proof fn lemma_decimal_unique(t: Seq<char>)
    requires
        is_canonical_decimal(t),
    ensures
        decimal_value(t) >= 0,
        decimal(decimal_value(t) as nat) == t,
    decreases t.len(),
{
    let v = decimal_value(t);
    let d = t.last() as int - 48;
    assert('0' <= t[t.len() - 1] <= '9');
    assert(0 <= d < 10);
    if t.len() == 1 {
        assert(t.drop_last() =~= Seq::<char>::empty());
        assert(decimal_value(t.drop_last()) == 0);
        assert(v == decimal_value(t.drop_last()) * 10 + d);
        assert(v == d);
        assert(decimal(v as nat) == seq![digit_char(v as nat)]);
        assert(digit_char(v as nat) as int == t[0] as int);
        assert(decimal(v as nat) =~= t);
    } else {
        let init = t.drop_last();
        assert(init[0] == t[0]);
        assert forall|i: int| 0 <= i < init.len() implies '0' <= #[trigger] init[i] <= '9' by {
            assert(init[i] == t[i]);
        }
        assert(is_canonical_decimal(init));
        lemma_decimal_unique(init);
        let w = decimal_value(init);
        if w == 0 {
            assert(decimal(0) == seq![digit_char(0)]);
            assert(init[0] == '0');
        }
        assert(w >= 1);
        assert(v == decimal_value(t.drop_last()) * 10 + d);
        assert(v == w * 10 + d);
        assert(v >= 10);
        assert(v / 10 == w && v % 10 == d) by (nonlinear_arith)
            requires
                v == w * 10 + d,
                0 <= d < 10,
        ;
        assert(decimal(v as nat) == decimal((v / 10) as nat).push(digit_char((v % 10) as nat)));
        assert(digit_char(d as nat) as int == t.last() as int);
        assert(decimal(v as nat) =~= t);
    }
}

/// How many times `c` occurs in `s`.
pub open spec fn count_char(s: Seq<char>, c: char) -> nat
    decreases s.len(),
{
    if s.len() == 0 {
        0
    } else {
        count_char(s.drop_last(), c) + (if s.last() == c { 1nat } else { 0nat })
    }
}

/// A split gives one piece more than there are separators.
pub proof fn lemma_split_pieces_count(s: Seq<char>, c: char)
    ensures
        split_pieces(s, c).len() == count_char(s, c) + 1,
    decreases s.len(),
{
    if s.len() > 0 {
        lemma_split_pieces_count(s.drop_last(), c);
        lemma_split_pieces_shape(s.drop_last(), c);
    }
}

} // verus!

verus! {

/// Text that does not hold the first character of the pattern is passed
/// through as it is, whatever follows it.
pub proof fn lemma_replaced_plain_prefix(a: Seq<char>, b: Seq<char>, p: Seq<char>, r: Seq<char>)
    requires
        p.len() > 0,
        !a.contains(p[0]),
    ensures
        replaced(a + b, p, r) == a + replaced(b, p, r),
    decreases a.len(),
{
    if a.len() == 0 {
        assert(a + b =~= b);
        assert(a + replaced(b, p, r) =~= replaced(b, p, r));
    } else {
        let s = a + b;
        let tail = a.skip(1);
        assert(!tail.contains(p[0])) by {
            if tail.contains(p[0]) {
                let i = choose|i: int| 0 <= i < tail.len() && tail[i] == p[0];
                assert(a[i + 1] == p[0]);
            }
        }
        lemma_replaced_plain_prefix(tail, b, p, r);
        assert(s.skip(1) =~= tail + b);
        assert(s[0] == a[0]);
        assert(a[0] != p[0]);
        if s.len() >= p.len() {
            assert(s.subrange(0, p.len() as int)[0] == s[0]);
            assert(s.subrange(0, p.len() as int) != p);
            assert(replaced(s, p, r) == seq![s[0]] + replaced(s.skip(1), p, r));
            assert(seq![a[0]] + (tail + replaced(b, p, r)) =~= a + replaced(b, p, r));
        } else {
            assert(replaced(b, p, r) == b);
        }
    }
}

/// The pattern itself, at the head of the text, becomes the replacement.
pub proof fn lemma_replaced_at_pattern(b: Seq<char>, p: Seq<char>, r: Seq<char>)
    requires
        p.len() > 0,
    ensures
        replaced(p + b, p, r) == r + replaced(b, p, r),
{
    let s = p + b;
    assert(s.subrange(0, p.len() as int) =~= p);
    assert(s.skip(p.len() as int) =~= b);
}

/// A placeholder such as `{nick}`: an opening brace, a name holding no
/// brace, and a closing brace.
pub open spec fn is_placeholder(p: Seq<char>) -> bool {
    &&& p.len() >= 2
    &&& p[0] == '{'
    &&& p[p.len() - 1] == '}'
    &&& forall|i: int| 0 < i < p.len() - 1 ==> #[trigger] p[i] != '{' && p[i] != '}'
}

/// Replacing one placeholder leaves another one at the head of the text as
/// it is.
pub proof fn lemma_replaced_other_placeholder(q: Seq<char>, b: Seq<char>, p: Seq<char>, r: Seq<char>)
    requires
        is_placeholder(p),
        is_placeholder(q),
        p != q,
    ensures
        replaced(q + b, p, r) == q + replaced(b, p, r),
{
    let s = q + b;
    let tail = q.skip(1);
    assert(!tail.contains(p[0])) by {
        if tail.contains(p[0]) {
            let i = choose|i: int| 0 <= i < tail.len() && tail[i] == p[0];
            assert(q[i + 1] == '{');
        }
    }
    lemma_replaced_plain_prefix(tail, b, p, r);
    assert(s.skip(1) =~= tail + b);
    if s.len() >= p.len() {
        let head = s.subrange(0, p.len() as int);
        if head == p {
            if p.len() <= q.len() {
                if p.len() == q.len() {
                    assert(q =~= p);
                } else {
                    let j = p.len() - 1;
                    assert(head[j] == q[j]);
                }
            } else {
                let j = q.len() - 1;
                assert(head[j] == q[j]);
                assert(p[j] == '}');
            }
        }
        assert(replaced(s, p, r) == seq![s[0]] + replaced(s.skip(1), p, r));
        assert(q =~= seq![q[0]] + tail);
        assert(seq![q[0]] + (tail + replaced(b, p, r)) =~= q + replaced(b, p, r));
    } else {
        assert(replaced(b, p, r) == b);
    }
}

} // verus!
