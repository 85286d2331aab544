use vstd::prelude::*;

verus! {

/// Lexicographic order on character sequences, comparing characters by their
/// Unicode scalar values. This is the order in which `authors` of a chunk are
/// emitted.
pub open spec fn lex_le(a: Seq<char>, b: Seq<char>) -> bool
    decreases a.len(),
{
    if a.len() == 0 {
        true
    } else if b.len() == 0 {
        false
    } else if (a[0] as u32) < (b[0] as u32) {
        true
    } else if a[0] == b[0] {
        lex_le(a.drop_first(), b.drop_first())
    } else {
        false
    }
}

pub open spec fn lex_lt(a: Seq<char>, b: Seq<char>) -> bool {
    lex_le(a, b) && a != b
}

pub proof fn lemma_lex_le_total(a: Seq<char>, b: Seq<char>)
    ensures
        lex_le(a, b) || lex_le(b, a),
    decreases a.len(),
{
    if a.len() == 0 || b.len() == 0 {
    } else if a[0] == b[0] {
        lemma_lex_le_total(a.drop_first(), b.drop_first());
    } else if !((a[0] as u32) < (b[0] as u32)) && !((b[0] as u32) < (a[0] as u32)) {
        vstd::utf8::char_u32_cast(a[0], a[0] as u32);
        vstd::utf8::char_u32_cast(b[0], b[0] as u32);
        assert(a[0] == b[0]);
    }
}

pub proof fn lemma_lex_le_antisymmetric(a: Seq<char>, b: Seq<char>)
    requires
        lex_le(a, b),
        lex_le(b, a),
    ensures
        a == b,
    decreases a.len(),
{
    if a.len() == 0 {
        assert(b.len() == 0);
        assert(a =~= b);
    } else {
        assert(a[0] == b[0]);
        lemma_lex_le_antisymmetric(a.drop_first(), b.drop_first());
        assert(a =~= seq![a[0]] + a.drop_first());
        assert(b =~= seq![b[0]] + b.drop_first());
    }
}

pub proof fn lemma_lex_le_transitive(a: Seq<char>, b: Seq<char>, c: Seq<char>)
    requires
        lex_le(a, b),
        lex_le(b, c),
    ensures
        lex_le(a, c),
    decreases a.len(),
{
    if a.len() == 0 {
    } else if b.len() == 0 {
    } else if c.len() == 0 {
    } else {
        if a[0] == b[0] && b[0] == c[0] {
            lemma_lex_le_transitive(a.drop_first(), b.drop_first(), c.drop_first());
        }
    }
}

/// Compares two strings in the lexicographic order of their characters.
pub fn str_lex_le(a: &str, b: &str) -> (r: bool)
    ensures
        r == lex_le(a@, b@),
{
    let a_len = a.unicode_len();
    let b_len = b.unicode_len();
    proof {
        assert(a@.skip(0) =~= a@);
        assert(b@.skip(0) =~= b@);
    }
    let mut i: usize = 0;
    loop
        invariant
            0 <= i <= a_len,
            0 <= i <= b_len,
            a_len == a@.len(),
            b_len == b@.len(),
            forall|j: int| 0 <= j < i ==> a@[j] == b@[j],
            lex_le(a@, b@) == lex_le(a@.skip(i as int), b@.skip(i as int)),
        decreases a_len - i,
    {
        proof {
            lemma_lex_le_skip_unfold(a@, b@, i as int);
        }
        if i >= a_len {
            proof {
                assert(a@.skip(i as int).len() == 0);
            }
            return true;
        }
        if i >= b_len {
            proof {
                assert(b@.skip(i as int).len() == 0);
                assert(a@.skip(i as int).len() > 0);
            }
            return false;
        }
        let ca = a.get_char(i);
        let cb = b.get_char(i);
        proof {
            assert(a@.skip(i as int)[0] == a@[i as int]);
            assert(b@.skip(i as int)[0] == b@[i as int]);
        }
        if (ca as u32) < (cb as u32) {
            return true;
        }
        if ca != cb {
            return false;
        }
        proof {
            assert(a@.skip(i as int).drop_first() =~= a@.skip(i + 1));
            assert(b@.skip(i as int).drop_first() =~= b@.skip(i + 1));
        }
        i = i + 1;
    }
}

/// Helper for `str_lex_le`: the comparison of equal-prefix suffixes does not
/// change when nothing is dropped.
proof fn lemma_lex_le_skip_unfold(a: Seq<char>, b: Seq<char>, i: int)
    requires
        0 <= i <= a.len(),
        0 <= i <= b.len(),
    ensures
        a.skip(i).len() == a.len() - i,
        b.skip(i).len() == b.len() - i,
{
}

/// All strings of the sequence are in strictly increasing lexicographic
/// order; in particular they are pairwise distinct.
pub open spec fn strictly_sorted_strings(a: Seq<Seq<char>>) -> bool {
    forall|i: int, j: int| 0 <= i < j < a.len() ==> lex_lt(#[trigger] a[i], #[trigger] a[j])
}

/// Whether the string `s` occurs in the sequence.
pub open spec fn seq_contains_str(a: Seq<Seq<char>>, s: Seq<char>) -> bool {
    exists|k: int| 0 <= k < a.len() && a[k] == s
}

/// Whether the vector holds a string equal to `s`.
pub fn vec_contains_string(v: &Vec<String>, s: &String) -> (r: bool)
    ensures
        r == seq_contains_str(v.deep_view(), s@),
{
    let mut i: usize = 0;
    while i < v.len()
        invariant
            0 <= i <= v@.len(),
            forall|k: int| 0 <= k < i ==> v.deep_view()[k] != s@,
        decreases v@.len() - i,
    {
        if v[i] == *s {
            assert(v.deep_view()[i as int] == s@);
            return true;
        }
        i = i + 1;
    }
    false
}

/// The position at which `s` belongs in a strictly sorted vector of strings:
/// everything before it is strictly below `s`, everything from it on is at or
/// above `s`.
fn sorted_position(v: &Vec<String>, s: &String) -> (p: usize)
    requires
        strictly_sorted_strings(v.deep_view()),
        !seq_contains_str(v.deep_view(), s@),
    ensures
        0 <= p <= v.deep_view().len(),
        forall|j: int| 0 <= j < p ==> lex_lt(#[trigger] v.deep_view()[j], s@),
        p < v.deep_view().len() ==> lex_le(s@, v.deep_view()[p as int]),
{
    let ghost dv0 = v.deep_view();
    let mut p: usize = 0;
    while p < v.len()
        invariant
            0 <= p <= v@.len(),
            v.deep_view() == dv0,
            strictly_sorted_strings(dv0),
            !seq_contains_str(dv0, s@),
            forall|j: int| 0 <= j < p ==> lex_lt(#[trigger] dv0[j], s@),
        decreases v@.len() - p,
    {
        if str_lex_le(s.as_str(), v[p].as_str()) {
            return p;
        }
        proof {
            assert(dv0[p as int] != s@);
            lemma_lex_le_total(s@, dv0[p as int]);
        }
        p = p + 1;
    }
    p
}

/// Inserts `s` into a strictly sorted vector of strings, keeping the order;
/// `s` must not already occur.
pub fn insert_string_sorted(v: &mut Vec<String>, s: String)
    requires
        strictly_sorted_strings(old(v).deep_view()),
        !seq_contains_str(old(v).deep_view(), s@),
    ensures
        strictly_sorted_strings(final(v).deep_view()),
        final(v).deep_view().len() == old(v).deep_view().len() + 1,
        forall|a: Seq<char>|
            seq_contains_str(final(v).deep_view(), a) <==> (seq_contains_str(old(v).deep_view(), a)
                || a == s@),
{
    let ghost dv0 = v.deep_view();
    let ghost g0 = v@;
    let p = sorted_position(v, &s);
    let ghost sv = s@;
    let sc = s.clone();
    v.insert(p, sc);
    proof {
        let g1 = v@;
        let dv1 = v.deep_view();
        g0.insert_ensures(p as int, s);
        assert(g1 == g0.insert(p as int, s));
        assert(dv1.len() == dv0.len() + 1);
        assert forall|j: int| 0 <= j < dv1.len() implies dv1[j] == (if j < p {
            dv0[j]
        } else if j == p {
            sv
        } else {
            dv0[j - 1]
        }) by {
            g0.insert_ensures(p as int, s);
            if j < p {
                assert(g1[j] == g0[j]);
            } else if j > p {
                assert(g1[j] == g0[j - 1]);
            }
        }
        assert forall|i: int, j: int| 0 <= i < j < dv1.len() implies lex_lt(
            #[trigger] dv1[i],
            #[trigger] dv1[j],
        ) by {
            lemma_insert_position_sorted(dv0, s@, p as int, i, j);
        }
        assert forall|a: Seq<char>| seq_contains_str(dv1, a) implies (seq_contains_str(dv0, a)
            || a == s@) by {
            let k = choose|k: int| 0 <= k < dv1.len() && dv1[k] == a;
            if k < p {
                assert(dv0[k] == a);
            } else if k > p {
                assert(dv0[k - 1] == a);
            }
        }
        assert forall|a: Seq<char>| (seq_contains_str(dv0, a) || a == s@) implies seq_contains_str(
            dv1,
            a,
        ) by {
            if a == s@ {
                assert(dv1[p as int] == a);
            } else {
                let k = choose|k: int| 0 <= k < dv0.len() && dv0[k] == a;
                if k < p {
                    assert(dv1[k] == a);
                } else {
                    assert(dv1[k + 1] == a);
                }
            }
        }
    }
}

/// The element placed at position `p` keeps the order strict when everything
/// before `p` is below it and it is at or below everything from `p` on.
proof fn lemma_insert_position_sorted(dv0: Seq<Seq<char>>, s: Seq<char>, p: int, i: int, j: int)
    requires
        strictly_sorted_strings(dv0),
        !seq_contains_str(dv0, s),
        0 <= p <= dv0.len(),
        forall|j2: int| 0 <= j2 < p ==> lex_lt(#[trigger] dv0[j2], s),
        p < dv0.len() ==> lex_le(s, dv0[p]),
        0 <= i < j < dv0.len() + 1,
    ensures
        lex_lt(
            (if i < p {
                dv0[i]
            } else if i == p {
                s
            } else {
                dv0[i - 1]
            }),
            (if j < p {
                dv0[j]
            } else if j == p {
                s
            } else {
                dv0[j - 1]
            }),
        ),
{
    let x = if i < p {
        dv0[i]
    } else if i == p {
        s
    } else {
        dv0[i - 1]
    };
    let y = if j < p {
        dv0[j]
    } else if j == p {
        s
    } else {
        dv0[j - 1]
    };
    if i < p && j == p {
        // x = dv0[i] < s = y by hypothesis
    } else if i == p && j > p {
        // y = dv0[j-1] with j-1 >= p, so s <= dv0[p] <= dv0[j-1], and s differs
        assert(lex_le(s, dv0[p]));
        if j - 1 > p {
            lemma_lex_lt_le_implies(dv0[p], dv0[j - 1], s);
        }
        assert(dv0[j - 1] != s);
        assert(lex_le(x, y));
    } else if i < p && j > p {
        assert(lex_lt(dv0[i], s));
        assert(lex_le(s, dv0[j - 1])) by {
            assert(lex_le(s, dv0[p]));
            if j - 1 > p {
                lemma_lex_lt_le_implies(dv0[p], dv0[j - 1], s);
            }
        }
        lemma_lex_le_transitive(dv0[i], s, dv0[j - 1]);
        assert(dv0[j - 1] != s);
        if dv0[i] == dv0[j - 1] {
            lemma_lex_le_antisymmetric(dv0[i], s);
        }
    }
}

/// From `lex_le(s, a)` and `lex_lt(a, b)` conclude `lex_le(s, b)`.
proof fn lemma_lex_lt_le_implies(a: Seq<char>, b: Seq<char>, s: Seq<char>)
    requires
        lex_le(s, a),
        lex_lt(a, b),
    ensures
        lex_le(s, b),
{
    lemma_lex_le_transitive(s, a, b);
}

/// Whether the string holds a newline character.
pub open spec fn contains_newline(s: Seq<char>) -> bool {
    exists|i: int| 0 <= i < s.len() && s[i] == '\n'
}

pub proof fn lemma_concat_no_newline(a: Seq<char>, b: Seq<char>)
    requires
        !contains_newline(a),
        !contains_newline(b),
    ensures
        !contains_newline(a + b),
{
    assert forall|i: int| 0 <= i < (a + b).len() implies (a + b)[i] != '\n' by {
        if i < a.len() {
            assert(a[i] != '\n');
        } else {
            assert(b[i - a.len()] != '\n');
        }
    }
}

/// The view of the literal newline string.
pub proof fn lemma_nl_view()
    ensures
        "\n"@ =~= seq!['\n'],
{
    reveal_strlit("\n");
}

/// Lines joined with a single newline between consecutive lines, in order.
pub open spec fn join_lines(lines: Seq<Seq<char>>) -> Seq<char>
    decreases lines.len(),
{
    if lines.len() == 0 {
        Seq::empty()
    } else if lines.len() == 1 {
        lines[0]
    } else {
        lines[0] + seq!['\n'] + join_lines(lines.drop_first())
    }
}

/// The segments of `s` between its newline characters, in order. Splitting
/// never yields an empty sequence: a string without newlines is one segment.
pub open spec fn split_lines(s: Seq<char>) -> Seq<Seq<char>>
    decreases s.len(),
{
    if s.len() == 0 {
        seq![Seq::<char>::empty()]
    } else if s[0] == '\n' {
        seq![Seq::<char>::empty()] + split_lines(s.drop_first())
    } else {
        let rest = split_lines(s.drop_first());
        seq![seq![s[0]] + rest[0]] + rest.drop_first()
    }
}

pub proof fn lemma_split_lines_len_pos(s: Seq<char>)
    ensures
        split_lines(s).len() >= 1,
    decreases s.len(),
{
    if s.len() > 0 {
        lemma_split_lines_len_pos(s.drop_first());
    }
}

/// A string without newlines splits into exactly itself.
pub proof fn lemma_split_no_newline(s: Seq<char>)
    requires
        !contains_newline(s),
    ensures
        split_lines(s) =~= seq![s],
    decreases s.len(),
{
    if s.len() == 0 {
        assert(s =~= Seq::<char>::empty());
    } else {
        assert(s[0] != '\n');
        assert(!contains_newline(s.drop_first())) by {
            assert forall|i: int| 0 <= i < s.drop_first().len() implies s.drop_first()[i] != '\n' by {
                assert(s.drop_first()[i] == s[i + 1]);
                assert(s[i + 1] != '\n');
            }
        }
        lemma_split_no_newline(s.drop_first());
        assert(seq![s[0]] + s.drop_first() =~= s);
    }
}

/// Splitting a string that starts with a newline-free segment followed by a
/// newline peels off that segment.
pub proof fn lemma_split_prepend_line(a: Seq<char>, s: Seq<char>)
    requires
        !contains_newline(a),
    ensures
        split_lines(a + seq!['\n'] + s) =~= seq![a] + split_lines(s),
    decreases a.len(),
{
    let t = a + seq!['\n'] + s;
    lemma_split_lines_len_pos(s);
    if a.len() == 0 {
        assert(t[0] == '\n');
        assert(t.drop_first() =~= s);
        assert(a =~= Seq::<char>::empty());
        assert(split_lines(t) =~= seq![a] + split_lines(s));
    } else {
        assert(t[0] == a[0]);
        assert(a[0] != '\n');
        assert(!contains_newline(a.drop_first())) by {
            assert forall|i: int| 0 <= i < a.drop_first().len() implies a.drop_first()[i] != '\n' by {
                assert(a.drop_first()[i] == a[i + 1]);
                assert(a[i + 1] != '\n');
            }
        }
        assert(t.drop_first() =~= a.drop_first() + seq!['\n'] + s);
        lemma_split_prepend_line(a.drop_first(), s);
        let rest = split_lines(t.drop_first());
        assert(rest =~= seq![a.drop_first()] + split_lines(s));
        assert(rest[0] == a.drop_first());
        assert(seq![t[0]] + rest[0] =~= a);
        assert(rest.drop_first() =~= split_lines(s));
        assert(split_lines(t) == seq![seq![t[0]] + rest[0]] + rest.drop_first());
        assert(split_lines(t) =~= seq![a] + split_lines(s));
    }
}

/// Appending one line to a joined text appends a newline and the line.
pub proof fn lemma_join_push(lines: Seq<Seq<char>>, l: Seq<char>)
    ensures
        join_lines(lines.push(l)) =~= (if lines.len() == 0 {
            l
        } else {
            join_lines(lines) + seq!['\n'] + l
        }),
    decreases lines.len(),
{
    let p = lines.push(l);
    if lines.len() == 0 {
        assert(p.len() == 1);
        assert(p[0] == l);
    } else if lines.len() == 1 {
        assert(p.len() == 2);
        assert(p[0] == lines[0]);
        assert(p.drop_first() =~= seq![l]);
        assert(join_lines(p.drop_first()) == l);
    } else {
        assert(p[0] == lines[0]);
        assert(p.drop_first() =~= lines.drop_first().push(l));
        lemma_join_push(lines.drop_first(), l);
    }
}

/// Joining newline-free lines and splitting the result gives the lines back,
/// in the same order.
pub proof fn lemma_split_join_round_trip(lines: Seq<Seq<char>>)
    requires
        lines.len() >= 1,
        forall|i: int| 0 <= i < lines.len() ==> !contains_newline(#[trigger] lines[i]),
    ensures
        split_lines(join_lines(lines)) =~= lines,
    decreases lines.len(),
{
    if lines.len() == 1 {
        lemma_split_no_newline(lines[0]);
    } else {
        lemma_split_join_round_trip(lines.drop_first());
        lemma_split_prepend_line(lines[0], join_lines(lines.drop_first()));
        assert(split_lines(join_lines(lines)) =~= seq![lines[0]] + split_lines(
            join_lines(lines.drop_first()),
        ));
    }
}


/// Items joined with the given separator between consecutive items.
pub open spec fn join_with(sep: Seq<char>, items: Seq<Seq<char>>) -> Seq<char>
    decreases items.len(),
{
    if items.len() == 0 {
        Seq::empty()
    } else if items.len() == 1 {
        items[0]
    } else {
        items[0] + sep + join_with(sep, items.drop_first())
    }
}

/// Appending one item to a joined text appends the separator and the item.
pub proof fn lemma_join_with_push(sep: Seq<char>, items: Seq<Seq<char>>, l: Seq<char>)
    ensures
        join_with(sep, items.push(l)) =~= (if items.len() == 0 {
            l
        } else {
            join_with(sep, items) + sep + l
        }),
    decreases items.len(),
{
    let p = items.push(l);
    if items.len() == 0 {
        assert(p.len() == 1);
        assert(p[0] == l);
    } else if items.len() == 1 {
        assert(p.len() == 2);
        assert(p[0] == items[0]);
        assert(p.drop_first() =~= seq![l]);
        assert(join_with(sep, p.drop_first()) == l);
    } else {
        assert(p[0] == items[0]);
        assert(p.drop_first() =~= items.drop_first().push(l));
        lemma_join_with_push(sep, items.drop_first(), l);
    }
}

} // verus!
