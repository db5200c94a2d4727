use vstd::prelude::*;

verus! {

/// The labels of a dotted name: the pieces between the `.` separators, in order.
/// Every name has at least one label; `""` has the single empty label.
pub open spec fn split_labels(s: Seq<char>) -> Seq<Seq<char>>
    decreases s.len(),
{
    if s.len() == 0 {
        seq![Seq::empty()]
    } else {
        let prev = split_labels(s.drop_last());
        if s.last() == '.' {
            prev.push(Seq::empty())
        } else {
            prev.update(prev.len() - 1, prev.last().push(s.last()))
        }
    }
}

/// The view of each string in a list.
pub open spec fn string_views(v: Seq<String>) -> Seq<Seq<char>> {
    v.map_values(|l: String| l@)
}

pub proof fn lemma_split_labels_nonempty(s: Seq<char>)
    ensures
        split_labels(s).len() >= 1,
    decreases s.len(),
{
    if s.len() > 0 {
        lemma_split_labels_nonempty(s.drop_last());
    }
}

/// Splits `s` at every `.` into owned labels.
pub fn split_on_dots(s: &str) -> (r: Vec<String>)
    ensures
        string_views(r@) == split_labels(s@),
{
    let n = s.unicode_len();
    let mut labels: Vec<String> = Vec::new();
    let mut start: usize = 0;
    let mut i: usize = 0;
    proof {
        assert(s@.take(0) =~= Seq::<char>::empty());
        assert(string_views(labels@).push(s@.subrange(0, 0)) =~= seq![Seq::<char>::empty()]);
    }
    while i < n
        invariant
            n == s@.len(),
            start <= i <= n,
            string_views(labels@).push(s@.subrange(start as int, i as int)) == split_labels(
                s@.take(i as int),
            ),
        decreases n - i,
    {
        let c = s.get_char(i);
        let ghost prefix = s@.take(i + 1);
        proof {
            assert(prefix.drop_last() =~= s@.take(i as int));
            assert(prefix.last() == c);
        }
        if c == '.' {
            let part = s.substring_char(start, i);
            let ghost before = labels@;
            labels.push(part.to_owned());
            assert(string_views(labels@) =~= string_views(before).push(part@));
            start = i + 1;
            assert(s@.subrange(start as int, i + 1) =~= Seq::<char>::empty());
            assert(string_views(labels@).push(s@.subrange(start as int, i + 1)) =~= split_labels(
                prefix,
            ));
        } else {
            assert(s@.subrange(start as int, i as int).push(c) =~= s@.subrange(
                start as int,
                i + 1,
            ));
            assert(string_views(labels@).push(s@.subrange(start as int, i + 1)) =~= split_labels(
                prefix,
            ));
        }
        i = i + 1;
    }
    let last = s.substring_char(start, n);
    labels.push(last.to_owned());
    proof {
        assert(s@.take(n as int) =~= s@);
    }
    labels
}

/// A name holding no `.` is one label.
pub proof fn lemma_split_no_dot(t: Seq<char>)
    requires
        forall|i: int| 0 <= i < t.len() ==> t[i] != '.',
    ensures
        split_labels(t) == seq![t],
    decreases t.len(),
{
    if t.len() == 0 {
        assert(t =~= Seq::<char>::empty());
    } else {
        lemma_split_no_dot(t.drop_last());
        assert(t.drop_last().push(t.last()) =~= t);
        assert(split_labels(t) =~= seq![t]);
    }
}

/// Splitting `s.t` gives the labels of `s` followed by those of `t`.
pub proof fn lemma_split_join(s: Seq<char>, t: Seq<char>)
    ensures
        split_labels(s + seq!['.'] + t) == split_labels(s) + split_labels(t),
    decreases t.len(),
{
    let st = s + seq!['.'] + t;
    if t.len() == 0 {
        assert(st.drop_last() =~= s);
        assert(t =~= Seq::<char>::empty());
        assert(split_labels(s).push(Seq::empty()) =~= split_labels(s) + seq![Seq::<char>::empty()]);
    } else {
        lemma_split_join(s, t.drop_last());
        lemma_split_labels_nonempty(t.drop_last());
        lemma_split_labels_nonempty(s);
        assert(st.drop_last() =~= s + seq!['.'] + t.drop_last());
        assert(st.last() == t.last());
        let a = split_labels(s);
        let b = split_labels(t.drop_last());
        if t.last() == '.' {
            assert((a + b).push(Seq::empty()) =~= a + b.push(Seq::empty()));
        } else {
            let x = b.last().push(t.last());
            assert((a + b).last() == b.last());
            assert((a + b).update((a + b).len() - 1, x) =~= a + b.update(b.len() - 1, x));
        }
    }
}

/// Three names without `.`, joined with `.`, split back into the same three.
pub proof fn lemma_split_three(a: Seq<char>, b: Seq<char>, c: Seq<char>)
    requires
        forall|i: int| 0 <= i < a.len() ==> a[i] != '.',
        forall|i: int| 0 <= i < b.len() ==> b[i] != '.',
        forall|i: int| 0 <= i < c.len() ==> c[i] != '.',
    ensures
        split_labels(a + seq!['.'] + b + seq!['.'] + c) == seq![a, b, c],
{
    lemma_split_no_dot(a);
    lemma_split_no_dot(b);
    lemma_split_no_dot(c);
    lemma_split_join(a, b);
    lemma_split_join(a + seq!['.'] + b, c);
    assert(seq![a] + seq![b] + seq![c] =~= seq![a, b, c]);
}

} // verus!
