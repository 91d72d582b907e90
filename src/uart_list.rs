//! Parsing of the comma-separated UART device list.
use vstd::prelude::*;

verus! {

/// The tokens of `s` separated by commas, in order; an empty string is one empty token,
/// as `str::split` gives it.
pub open spec fn split_commas(s: Seq<char>) -> Seq<Seq<char>>
    decreases s.len(),
{
    if s.len() == 0 {
        seq![Seq::<char>::empty()]
    } else {
        let prev = split_commas(s.drop_last());
        if s.last() == ',' {
            prev.push(Seq::<char>::empty())
        } else {
            prev.update(prev.len() - 1, prev.last().push(s.last()))
        }
    }
}

pub proof fn lemma_split_commas_nonempty(s: Seq<char>)
    ensures
        split_commas(s).len() >= 1,
    decreases s.len(),
{
    if s.len() > 0 {
        lemma_split_commas_nonempty(s.drop_last());
    }
}

/// A string without commas is its own single token.
pub proof fn lemma_split_commas_no_comma(s: Seq<char>)
    requires
        forall|j: int| 0 <= j < s.len() ==> s[j] != ',',
    ensures
        split_commas(s) == seq![s],
    decreases s.len(),
{
    if s.len() == 0 {
        assert(s =~= Seq::<char>::empty());
    } else {
        assert forall|j: int| 0 <= j < s.drop_last().len() implies s.drop_last()[j] != ',' by {
            assert(s.drop_last()[j] == s[j]);
        }
        lemma_split_commas_no_comma(s.drop_last());
        assert(s[s.len() - 1] != ',');
        assert(s.drop_last().push(s.last()) =~= s);
        assert(seq![s.drop_last()].update(0, s.drop_last().push(s.last())) =~= seq![s]);
    }
}

/// A string that splits into a single token holds no comma.
pub proof fn lemma_split_commas_single(s: Seq<char>)
    requires
        split_commas(s).len() == 1,
    ensures
        forall|j: int| 0 <= j < s.len() ==> s[j] != ',',
    decreases s.len(),
{
    if s.len() > 0 {
        lemma_split_commas_nonempty(s.drop_last());
        lemma_split_commas_single(s.drop_last());
        assert forall|j: int| 0 <= j < s.len() implies s[j] != ',' by {
            if j < s.len() - 1 {
                assert(s.drop_last()[j] == s[j]);
            }
        }
    }
}

/// The first token is the text before the first comma, or the whole string when it
/// holds none.
pub proof fn lemma_first_token(s: Seq<char>, k: int)
    requires
        0 <= k <= s.len(),
        k == s.len() || s[k] == ',',
        forall|j: int| 0 <= j < k ==> s[j] != ',',
    ensures
        split_commas(s)[0] == s.take(k),
    decreases s.len(),
{
    if k == s.len() {
        lemma_split_commas_no_comma(s);
        assert(s.take(k) =~= s);
    } else {
        let p = s.drop_last();
        lemma_split_commas_nonempty(p);
        if k < p.len() {
            assert(p[k] == ',');
            assert forall|j: int| 0 <= j < k implies p[j] != ',' by {
                assert(p[j] == s[j]);
            }
            lemma_first_token(p, k);
            assert(p.take(k) =~= s.take(k));
            if s.last() != ',' && split_commas(p).len() == 1 {
                lemma_split_commas_single(p);
                assert(false);
            }
        } else {
            assert forall|j: int| 0 <= j < p.len() implies p[j] != ',' by {
                assert(p[j] == s[j]);
            }
            lemma_split_commas_no_comma(p);
            assert(p =~= s.take(k));
        }
    }
}

/// The views of a list of strings.
pub open spec fn views(v: Seq<String>) -> Seq<Seq<char>> {
    v.map_values(|x: String| x@)
}

/// Splits `s` at every comma into its tokens, in order.
pub fn split_uart_list(s: &str) -> (r: Vec<String>)
    ensures
        views(r@) == split_commas(s@),
{
    let n = s.unicode_len();
    let mut parts: Vec<String> = Vec::new();
    let mut start: usize = 0;
    let mut i: usize = 0;
    assert(s@.take(0) =~= Seq::<char>::empty());
    assert(views(parts@).push(s@.subrange(0, 0)) =~= seq![Seq::<char>::empty()]);
    while i < n
        invariant
            n == s@.len(),
            start <= i <= n,
            split_commas(s@.take(i as int)) == views(parts@).push(s@.subrange(start as int, i as int)),
        decreases n - i,
    {
        let c = s.get_char(i);
        let ghost prev = s@.take(i as int);
        let ghost old_parts = parts@;
        let ghost next = s@.take(i + 1);
        assert(next.drop_last() =~= prev);
        assert(next.last() == c);
        assert(next.len() > 0);
        let ghost sp = split_commas(prev);
        if c == ',' {
            let tok = String::from_str(s.substring_char(start, i));
            parts.push(tok);
            start = i + 1;
            assert(parts@.drop_last() =~= old_parts);
            assert(views(parts@) =~= views(old_parts).push(tok@));
            assert(split_commas(next) == sp.push(Seq::<char>::empty()));
            assert(s@.subrange(start as int, i + 1) =~= Seq::<char>::empty());
            assert(views(parts@).push(s@.subrange(start as int, i + 1)) =~= sp.push(
                Seq::<char>::empty(),
            ));
        } else {
            assert(s@.subrange(start as int, i + 1) =~= s@.subrange(start as int, i as int).push(c));
            assert(split_commas(next) == sp.update(sp.len() - 1, sp.last().push(c)));
            assert(views(parts@).push(s@.subrange(start as int, i + 1)) =~= sp.update(
                sp.len() - 1,
                sp.last().push(c),
            ));
        }
        i = i + 1;
    }
    let last = String::from_str(s.substring_char(start, n));
    parts.push(last);
    assert(s@.take(n as int) == s@);
    parts
}

} // verus!
