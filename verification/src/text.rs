//! Small verified text utilities shared by the model, the classifier and the
//! renderers: character search, prefix extraction, path rewriting and the
//! decimal rendering of indices.

use vstd::prelude::*;

verus! {

use vstd::string::StrSliceExecFns;
use vstd::string::StringExecFns;

/// The views of a sequence of strings.
pub open spec fn str_views(v: Seq<String>) -> Seq<Seq<char>> {
    v.map_values(|s: String| s@)
}

/// A fresh copy of a list of strings.
pub fn clone_strings(v: &Vec<String>) -> (r: Vec<String>)
    ensures
        str_views(r@) == str_views(v@),
{
    let mut r: Vec<String> = Vec::new();
    let mut i: usize = 0;
    proof {
        assert(str_views(r@) =~= str_views(v@.take(0)));
    }
    while i < v.len()
        invariant
            i <= v.len(),
            r@.len() == i,
            str_views(r@) == str_views(v@.take(i as int)),
        decreases v.len() - i,
    {
        let ghost pre = r@;
        r.push(v[i].clone());
        proof {
            assert(r@.len() == i + 1);
            assert forall|j: int| 0 <= j < i + 1 implies str_views(r@)[j] == str_views(
                v@.take(i + 1),
            )[j] by {
                if j < i {
                    assert(str_views(pre)[j] == str_views(v@.take(i as int))[j]);
                    assert(r@[j] == pre[j]);
                    assert(v@.take(i + 1)[j] == v@[j]);
                    assert(v@.take(i as int)[j] == v@[j]);
                } else {
                    assert(r@[j]@ == v@[i as int]@);
                    assert(v@.take(i + 1)[j] == v@[i as int]);
                }
            }
            assert(str_views(r@) =~= str_views(v@.take(i + 1)));
        }
        i += 1;
    }
    proof {
        assert(v@.take(v@.len() as int) =~= v@);
    }
    r
}

/// Relies on `alloc::string::String::push`: appends exactly one character.
#[verifier::external_body]
pub fn push_char(s: &mut String, c: char)
    ensures
        final(s)@ == old(s)@.push(c),
{
    s.push(c)
}

/// True iff `c` occurs in `s`.
pub fn contains_char(s: &str, c: char) -> (r: bool)
    ensures
        r == s@.contains(c),
{
    let len = s.unicode_len();
    let mut i: usize = 0;
    while i < len
        invariant
            i <= len,
            len == s@.len(),
            forall|j: int| 0 <= j < i ==> s@[j] != c,
        decreases len - i,
    {
        if s.get_char(i) == c {
            return true;
        }
        i += 1;
    }
    false
}

/// The longest prefix of `s` that stops before the first occurrence of `c`;
/// the whole of `s` when `c` does not occur.
pub open spec fn upto_char(s: Seq<char>, c: char) -> Seq<char>
    decreases s.len(),
{
    if s.len() == 0 {
        s
    } else if s[0] == c {
        Seq::empty()
    } else {
        seq![s[0]] + upto_char(s.skip(1), c)
    }
}

/// Cuts `s` just before the first occurrence of `c`; `s` itself when `c`
/// does not occur.
pub fn prefix_before(s: &str, c: char) -> (r: String)
    ensures
        r@ == upto_char(s@, c),
{
    let mut out = String::new();
    let len = s.unicode_len();
    let mut i: usize = 0;
    proof {
        assert(s@.skip(0) =~= s@);
        assert(out@ + upto_char(s@, c) =~= upto_char(s@, c));
    }
    while i < len
        invariant
            i <= len,
            len == s@.len(),
            upto_char(s@, c) == out@ + upto_char(s@.skip(i as int), c),
            forall|j: int| 0 <= j < i ==> s@[j] != c,
        decreases len - i,
    {
        let ghost pre = out@;
        let ch = s.get_char(i);
        proof {
            assert(s@.skip(i as int)[0] == s@[i as int]);
            assert(s@.skip(i as int).skip(1) =~= s@.skip(i + 1));
        }
        if ch == c {
            proof {
                assert(upto_char(s@.skip(i as int), c) =~= Seq::<char>::empty());
                assert(out@ + Seq::<char>::empty() =~= out@);
            }
            return out;
        }
        push_char(&mut out, ch);
        proof {
            assert(upto_char(s@.skip(i as int), c) == seq![s@[i as int]] + upto_char(
                s@.skip(i + 1),
                c,
            ));
            assert(pre + (seq![s@[i as int]] + upto_char(s@.skip(i + 1), c)) =~= out@ + upto_char(
                s@.skip(i + 1),
                c,
            ));
        }
        i += 1;
    }
    proof {
        assert(s@.skip(len as int).len() == 0);
        assert(out@ + upto_char(s@.skip(len as int), c) =~= out@);
    }
    out
}

/// The part of a dotted path after its last dot; the whole path when no dot
/// occurs.
pub open spec fn after_last_dot(s: Seq<char>) -> Seq<char>
    decreases s.len(),
{
    if s.len() == 0 {
        s
    } else if s.last() == '.' {
        Seq::empty()
    } else {
        after_last_dot(s.drop_last()).push(s.last())
    }
}

/// The part of a dotted path before its last dot; empty when no dot occurs.
pub open spec fn before_last_dot(s: Seq<char>) -> Seq<char>
    decreases s.len(),
{
    if s.len() == 0 {
        s
    } else if s.last() == '.' {
        s.drop_last()
    } else {
        before_last_dot(s.drop_last())
    }
}

proof fn lemma_no_dot_split(s: Seq<char>)
    requires
        forall|j: int| 0 <= j < s.len() ==> s[j] != '.',
    ensures
        after_last_dot(s) == s,
        before_last_dot(s).len() == 0,
    decreases s.len(),
{
    if s.len() > 0 {
        lemma_no_dot_split(s.drop_last());
        assert(after_last_dot(s) =~= s);
    }
}

proof fn lemma_last_dot_split(s: Seq<char>, k: int)
    requires
        1 <= k <= s.len(),
        s[k - 1] == '.',
        forall|j: int| k <= j < s.len() ==> s[j] != '.',
    ensures
        after_last_dot(s) == s.skip(k),
        before_last_dot(s) == s.take(k - 1),
    decreases s.len(),
{
    if k == s.len() {
        assert(after_last_dot(s) =~= s.skip(k));
        assert(before_last_dot(s) =~= s.take(k - 1));
    } else {
        lemma_last_dot_split(s.drop_last(), k);
        assert(s.drop_last()[k - 1] == '.');
        assert(after_last_dot(s) =~= s.drop_last().skip(k).push(s.last()));
        assert(s.drop_last().skip(k).push(s.last()) =~= s.skip(k));
        assert(s.drop_last().take(k - 1) =~= s.take(k - 1));
    }
}

/// A path text with every `::` separator rewritten to `.`.
pub open spec fn dotted(s: Seq<char>) -> Seq<char>
    decreases s.len(),
{
    if s.len() == 0 {
        Seq::empty()
    } else if s.len() >= 2 && s[0] == ':' && s[1] == ':' {
        seq!['.'] + dotted(s.skip(2))
    } else {
        seq![s[0]] + dotted(s.skip(1))
    }
}

/// Rewrites every `::` in a path to `.`, as the scope notation uses dots.
pub fn replace_coloncolon(s: &str) -> (r: String)
    ensures
        r@ == dotted(s@),
{
    let mut out = String::new();
    let len = s.unicode_len();
    let mut i: usize = 0;
    proof {
        assert(s@.skip(0) =~= s@);
        assert(out@ + dotted(s@) =~= dotted(s@));
    }
    while i < len
        invariant
            i <= len,
            len == s@.len(),
            dotted(s@) == out@ + dotted(s@.skip(i as int)),
        decreases len - i,
    {
        let ghost pre = out@;
        if i + 1 < len && s.get_char(i) == ':' && s.get_char(i + 1) == ':' {
            push_char(&mut out, '.');
            proof {
                assert(s@.skip(i as int)[0] == s@[i as int]);
                assert(s@.skip(i as int)[1] == s@[i as int + 1]);
                assert(s@.skip(i as int).skip(2) =~= s@.skip(i + 2));
                assert(dotted(s@.skip(i as int)) == seq!['.'] + dotted(s@.skip(i + 2)));
                assert(out@ =~= pre.push('.'));
                assert(pre + (seq!['.'] + dotted(s@.skip(i + 2))) =~= out@ + dotted(s@.skip(i + 2)));
            }
            i += 2;
        } else {
            let ch = s.get_char(i);
            push_char(&mut out, ch);
            proof {
                assert(s@.skip(i as int)[0] == s@[i as int]);
                assert(s@.skip(i as int).skip(1) =~= s@.skip(i + 1));
                assert(dotted(s@.skip(i as int)) == seq![s@[i as int]] + dotted(s@.skip(i + 1)));
                assert(pre + (seq![s@[i as int]] + dotted(s@.skip(i + 1))) =~= out@ + dotted(s@.skip(i + 1)));
            }
            i += 1;
        }
    }
    proof {
        assert(s@.skip(len as int) =~= Seq::<char>::empty());
        assert(out@ + Seq::<char>::empty() =~= out@);
    }
    out
}

/// Splits a dotted path at its last dot: `(scope, leaf)`. A path without a
/// dot has an empty scope and is its own leaf.
pub fn rsplit_dot(s: &str) -> (r: (String, String))
    ensures
        r.0@ == before_last_dot(s@),
        r.1@ == after_last_dot(s@),
{
    let len = s.unicode_len();
    let mut k: usize = len;
    // find one past the last '.'
    while k > 0
        invariant
            k <= len,
            len == s@.len(),
            forall|j: int| k <= j < len ==> s@[j] != '.',
        decreases k,
    {
        if s.get_char(k - 1) == '.' {
            let scope = s.substring_char(0, k - 1);
            let leaf = s.substring_char(k, len);
            proof {
                lemma_last_dot_split(s@, k as int);
                assert(scope@ =~= s@.take(k - 1));
                assert(leaf@ =~= s@.skip(k as int));
            }
            return (scope.to_owned(), leaf.to_owned());
        }
        k -= 1;
    }
    proof {
        lemma_no_dot_split(s@);
        assert(before_last_dot(s@) =~= Seq::<char>::empty());
    }
    (String::new(), s.to_owned())
}

/// The strings of `xs` joined by `sep`.
pub open spec fn join_sep(xs: Seq<Seq<char>>, sep: Seq<char>) -> Seq<char>
    decreases xs.len(),
{
    if xs.len() == 0 {
        Seq::empty()
    } else if xs.len() == 1 {
        xs[0]
    } else {
        join_sep(xs.drop_last(), sep) + sep + xs.last()
    }
}

/// Joins a list of strings with a separator.
pub fn join_strings(v: &Vec<String>, sep: &str) -> (r: String)
    ensures
        r@ == join_sep(str_views(v@), sep@),
{
    let ghost sv = str_views(v@);
    let mut out = String::new();
    let mut i: usize = 0;
    proof {
        assert(out@ =~= join_sep(sv.take(0), sep@));
    }
    while i < v.len()
        invariant
            i <= v.len(),
            sv == str_views(v@),
            out@ == join_sep(sv.take(i as int), sep@),
        decreases v.len() - i,
    {
        let ghost pre = out@;
        if i > 0 {
            out.append(sep);
        }
        out.append(v[i].as_str());
        proof {
            assert(sv.take(i + 1).drop_last() =~= sv.take(i as int));
            assert(sv.take(i + 1).last() == sv[i as int]);
            assert(sv[i as int] == v@[i as int]@);
            if i == 0 {
                assert(sv.take(1).len() == 1);
                assert(join_sep(sv.take(1), sep@) == sv.take(1)[0]);
                assert(pre + v@[0]@ =~= sv[0]);
            } else {
                assert(join_sep(sv.take(i + 1), sep@) == join_sep(sv.take(i as int), sep@) + sep@
                    + sv[i as int]);
            }
        }
        i += 1;
    }
    proof {
        assert(sv.take(sv.len() as int) =~= sv);
    }
    out
}

/// How `insert` places one element: everything before the position keeps
/// its index, everything from the position on moves up by one.
pub proof fn lemma_insert_index<A>(s: Seq<A>, pos: int, x: A)
    requires
        0 <= pos <= s.len(),
    ensures
        s.insert(pos, x).len() == s.len() + 1,
        forall|k: int| 0 <= k < pos ==> #[trigger] s.insert(pos, x)[k] == s[k],
        s.insert(pos, x)[pos] == x,
        forall|k: int| pos < k <= s.len() ==> #[trigger] s.insert(pos, x)[k] == s[k - 1],
{
    s.insert_ensures(pos, x);
    assert forall|k: int| pos < k <= s.len() implies #[trigger] s.insert(pos, x)[k] == s[k
        - 1] by {
        assert(s.insert(pos, x)[(k - 1) + 1] == s[k - 1]);
    }
}

/// Lexicographic order on names, by scalar value.
pub open spec fn lex_lt(a: Seq<char>, b: Seq<char>) -> bool
    decreases a.len(),
{
    if b.len() == 0 {
        false
    } else if a.len() == 0 {
        true
    } else if (a[0] as u32) < (b[0] as u32) {
        true
    } else if (a[0] as u32) > (b[0] as u32) {
        false
    } else {
        lex_lt(a.skip(1), b.skip(1))
    }
}

/// Names are totally ordered: two names are equal or one is strictly below
/// the other.
pub proof fn lemma_lex_total(a: Seq<char>, b: Seq<char>)
    ensures
        lex_lt(a, b) || lex_lt(b, a) || a == b,
    decreases a.len(),
{
    if b.len() == 0 {
        if a.len() == 0 {
            assert(a =~= b);
        }
    } else if a.len() == 0 {
    } else if (a[0] as u32) < (b[0] as u32) || (a[0] as u32) > (b[0] as u32) {
    } else {
        lemma_lex_total(a.skip(1), b.skip(1));
        if !lex_lt(a, b) && !lex_lt(b, a) {
            assert(a[0] as u32 == b[0] as u32);
            assert(a[0] == b[0]) by {
                vstd::utf8::char_u32_cast(a[0], a[0] as u32);
                vstd::utf8::char_u32_cast(b[0], b[0] as u32);
            }
            assert(a.skip(1) == b.skip(1));
            assert(a =~= seq![a[0]] + a.skip(1));
            assert(b =~= seq![b[0]] + b.skip(1));
        }
    }
}

/// The order is strict: a name is never below itself, and two names are
/// never below each other.
pub proof fn lemma_lex_asym(a: Seq<char>, b: Seq<char>)
    requires
        lex_lt(a, b),
    ensures
        !lex_lt(b, a),
        a != b,
    decreases a.len(),
{
    if a.len() == 0 {
    } else if b.len() == 0 {
    } else if (a[0] as u32) < (b[0] as u32) || (a[0] as u32) > (b[0] as u32) {
    } else {
        lemma_lex_asym(a.skip(1), b.skip(1));
        if a == b {
            assert(a.skip(1) == b.skip(1));
        }
    }
}

/// The order is transitive.
pub proof fn lemma_lex_trans(a: Seq<char>, b: Seq<char>, c: Seq<char>)
    requires
        lex_lt(a, b),
        lex_lt(b, c),
    ensures
        lex_lt(a, c),
    decreases a.len(),
{
    if a.len() == 0 {
    } else {
        if (a[0] as u32) == (b[0] as u32) && (b[0] as u32) == (c[0] as u32) {
            lemma_lex_trans(a.skip(1), b.skip(1), c.skip(1));
        }
    }
}

/// Three-way comparison of two names in the lexicographic order.
pub fn str_cmp(a: &str, b: &str) -> (r: i8)
    ensures
        r == -1 || r == 0 || r == 1,
        (r == -1) ==> lex_lt(a@, b@),
        (r == 0) ==> a@ == b@,
        (r == 1) ==> lex_lt(b@, a@),
{
    let la = a.unicode_len();
    let lb = b.unicode_len();
    let mut i: usize = 0;
    proof {
        assert(a@.skip(0) =~= a@);
        assert(b@.skip(0) =~= b@);
    }
    while i < la && i < lb
        invariant
            i <= la,
            i <= lb,
            la == a@.len(),
            lb == b@.len(),
            lex_lt(a@, b@) == lex_lt(a@.skip(i as int), b@.skip(i as int)),
            lex_lt(b@, a@) == lex_lt(b@.skip(i as int), a@.skip(i as int)),
            (a@ == b@) == (a@.skip(i as int) == b@.skip(i as int)),
        decreases la - i,
    {
        let ca = a.get_char(i);
        let cb = b.get_char(i);
        proof {
            assert(a@.skip(i as int)[0] == a@[i as int]);
            assert(b@.skip(i as int)[0] == b@[i as int]);
            assert(a@.skip(i as int).skip(1) =~= a@.skip(i + 1));
            assert(b@.skip(i as int).skip(1) =~= b@.skip(i + 1));
        }
        if (ca as u32) < (cb as u32) {
            return -1;
        }
        if (ca as u32) > (cb as u32) {
            return 1;
        }
        proof {
            assert(ca == cb) by {
                vstd::utf8::char_u32_cast(ca, ca as u32);
                vstd::utf8::char_u32_cast(cb, cb as u32);
            }
            assert((a@.skip(i as int) == b@.skip(i as int)) == (a@.skip(i + 1) == b@.skip(
                i + 1,
            ))) by {
                if a@.skip(i + 1) == b@.skip(i + 1) {
                    assert(a@.skip(i as int) =~= seq![a@[i as int]] + a@.skip(i + 1));
                    assert(b@.skip(i as int) =~= seq![b@[i as int]] + b@.skip(i + 1));
                }
            }
        }
        i += 1;
    }
    if i < la {
        // b is a strict prefix of a
        proof {
            assert(b@.skip(i as int).len() == 0);
            assert(a@.skip(i as int).len() > 0);
        }
        return 1;
    }
    if i < lb {
        proof {
            assert(a@.skip(i as int).len() == 0);
        }
        return -1;
    }
    proof {
        assert(a@.skip(i as int) =~= b@.skip(i as int));
    }
    0
}

/// Joins a scope and a name with a dot: `scope.name`.
pub fn qualified_name(scope: &str, name: &str) -> (r: String)
    ensures
        r@ == scope@ + seq!['.'] + name@,
{
    let mut s = scope.to_owned();
    s.append(".");
    s.append(name);
    proof {
        reveal_strlit(".");
        assert("."@ =~= seq!['.']);
    }
    s
}

/// The character for one decimal digit.
pub open spec fn digit_char(d: nat) -> char {
    if d == 0 {
        '0'
    } else if d == 1 {
        '1'
    } else if d == 2 {
        '2'
    } else if d == 3 {
        '3'
    } else if d == 4 {
        '4'
    } else if d == 5 {
        '5'
    } else if d == 6 {
        '6'
    } else if d == 7 {
        '7'
    } else if d == 8 {
        '8'
    } else {
        '9'
    }
}

/// The decimal rendering of a natural number, most significant digit first.
pub open spec fn dec_str(n: nat) -> Seq<char>
    decreases n,
{
    if n < 10 {
        seq![digit_char(n)]
    } else {
        dec_str(n / 10) + seq![digit_char(n % 10)]
    }
}

fn digit_str(d: usize) -> (r: &'static str)
    requires
        d < 10,
    ensures
        r@ =~= seq![digit_char(d as nat)],
{
    proof {
        reveal_strlit("0");
        reveal_strlit("1");
        reveal_strlit("2");
        reveal_strlit("3");
        reveal_strlit("4");
        reveal_strlit("5");
        reveal_strlit("6");
        reveal_strlit("7");
        reveal_strlit("8");
        reveal_strlit("9");
    }
    match d {
        0 => "0",
        1 => "1",
        2 => "2",
        3 => "3",
        4 => "4",
        5 => "5",
        6 => "6",
        7 => "7",
        8 => "8",
        _ => "9",
    }
}

/// Renders an index in decimal.
pub fn usize_to_string(n: usize) -> (r: String)
    ensures
        r@ == dec_str(n as nat),
    decreases n,
{
    if n < 10 {
        digit_str(n).to_owned()
    } else {
        let mut s = usize_to_string(n / 10);
        s.append(digit_str(n % 10));
        s
    }
}

} // verus!
