use vstd::prelude::*;

verus! {

/// How many times `x` occurs in `s`.
pub open spec fn occurrences<A>(s: Seq<A>, x: A) -> nat
    decreases s.len(),
{
    if s.len() == 0 {
        0
    } else {
        occurrences(s.drop_last(), x) + if s.last() == x {
            1nat
        } else {
            0nat
        }
    }
}

/// `(w, c)` answers "which word is the most frequent in `words`, and how often":
/// `w` occurs `c` times, no word occurs more often, and `w` is the word whose
/// running count reaches `c` first (ties go to the word that got there first).
pub open spec fn is_most_frequent<A>(words: Seq<A>, w: A, c: nat) -> bool {
    &&& occurrences(words, w) == c
    &&& forall|i: int| 0 <= i < words.len() ==> #[trigger] occurrences(words, words[i]) <= c
    &&& exists|j: int|
        #![trigger words[j]]
        {
            &&& 0 <= j < words.len()
            &&& words[j] == w
            &&& occurrences(words.take(j + 1), w) == c
            &&& forall|m: int|
                0 <= m < j ==> #[trigger] occurrences(words.take(m + 1), words[m]) < c
        }
}

/// A character with Unicode's White_Space property, the test behind
/// `char::is_whitespace`: U+0009 to U+000D, U+0020, U+0085, U+00A0, U+1680,
/// U+2000 to U+200A, U+2028, U+2029, U+202F, U+205F and U+3000.
pub open spec fn is_white_space(c: char) -> bool {
    let u = c as int;
    ||| 0x9 <= u <= 0xD
    ||| u == 0x20
    ||| u == 0x85
    ||| u == 0xA0
    ||| u == 0x1680
    ||| 0x2000 <= u <= 0x200A
    ||| u == 0x2028
    ||| u == 0x2029
    ||| u == 0x202F
    ||| u == 0x205F
    ||| u == 0x3000
}

/// Reading `s` from the left: the words completed so far and the run of
/// non-white-space characters being read.
pub open spec fn scan_words(s: Seq<char>) -> (Seq<Seq<char>>, Seq<char>)
    decreases s.len(),
{
    if s.len() == 0 {
        (Seq::empty(), Seq::empty())
    } else {
        let before = scan_words(s.drop_last());
        if !is_white_space(s.last()) {
            (before.0, before.1.push(s.last()))
        } else if before.1.len() > 0 {
            (before.0.push(before.1), Seq::empty())
        } else {
            before
        }
    }
}

/// The words of a text as `str::split_whitespace` yields them: the maximal
/// runs of characters that are not white space, in order; none for an
/// empty or all-white-space text.
pub open spec fn whitespace_words(text: Seq<char>) -> Seq<Seq<char>> {
    let end = scan_words(text);
    if end.1.len() > 0 {
        end.0.push(end.1)
    } else {
        end.0
    }
}

/// Splits `text` with `str::split_whitespace` and collects the pieces.
/// Trusted: as std documents, the pieces are the maximal runs of
/// characters without Unicode's White_Space property, in order
/// (`whitespace_words`).
#[verifier::external_body]
fn split_words(text: &str) -> (words: Vec<&str>)
    ensures
        words@.map_values(|w: &str| w@) == whitespace_words(text@),
{
    text.split_whitespace().collect()
}

/// The characters of each string of `v`.
pub open spec fn string_views(v: Seq<String>) -> Seq<Seq<char>> {
    v.map_values(|s: String| s@)
}

/// A count never exceeds the length.
pub proof fn lemma_occurrences_le_len<A>(s: Seq<A>, x: A)
    ensures
        occurrences(s, x) <= s.len(),
    decreases s.len(),
{
    if s.len() > 0 {
        lemma_occurrences_le_len(s.drop_last(), x);
    }
}

/// A prefix holds no more occurrences than the whole.
pub proof fn lemma_occurrences_prefix<A>(s: Seq<A>, n: int, x: A)
    requires
        0 <= n <= s.len(),
    ensures
        occurrences(s.take(n), x) <= occurrences(s, x),
    decreases s.len(),
{
    if n < s.len() {
        assert(s.drop_last().take(n) =~= s.take(n));
        lemma_occurrences_prefix(s.drop_last(), n, x);
    } else {
        assert(s.take(n) =~= s);
    }
}

/// Counting over a prefix that grows by one element.
pub proof fn lemma_occurrences_take_succ<A>(s: Seq<A>, k: int, x: A)
    requires
        0 <= k < s.len(),
    ensures
        occurrences(s.take(k + 1), x) == occurrences(s.take(k), x) + if s[k] == x {
            1nat
        } else {
            0nat
        },
{
    assert(s.take(k + 1).drop_last() =~= s.take(k));
}

/// The index of the first string of `v` equal to `w`.
fn position_of(v: &Vec<String>, w: &String) -> (r: Option<usize>)
    ensures
        match r {
            Some(i) => i < v.len() && v@[i as int]@ == w@ && forall|j: int|
                0 <= j < i ==> (#[trigger] v@[j])@ != w@,
            None => forall|j: int| 0 <= j < v.len() ==> (#[trigger] v@[j])@ != w@,
        },
{
    let mut i: usize = 0;
    while i < v.len()
        invariant
            i <= v.len(),
            forall|j: int| 0 <= j < i ==> (#[trigger] v@[j])@ != w@,
        decreases v.len() - i,
    {
        if v[i] == *w {
            return Some(i);
        }
        i = i + 1;
    }
    None
}

/// The most frequent word of a non-empty list and its count, with ties
/// going to the word whose count reached the maximum first.
pub fn most_frequent_in(words: &Vec<String>) -> (r: (String, usize))
    requires
        words.len() > 0,
    ensures
        is_most_frequent(string_views(words@), r.0@, r.1 as nat),
{
    let ghost ws = string_views(words@);
    let mut unique_words: Vec<String> = Vec::new();
    let mut counts: Vec<usize> = Vec::new();
    let mut max_index: usize = 0;
    let mut k: usize = 0;
    while k < words.len()
        invariant
            ws == string_views(words@),
            ws.len() == words.len(),
            k <= words.len(),
            unique_words.len() == counts.len(),
            k == 0 ==> counts.len() == 0,
            forall|i: int|
                0 <= i < counts.len() ==> #[trigger] counts@[i] == occurrences(
                    ws.take(k as int),
                    unique_words@[i]@,
                ),
            forall|i: int, j: int|
                0 <= i < j < unique_words.len() ==> (#[trigger] unique_words@[i])@
                    != (#[trigger] unique_words@[j])@,
            forall|m: int|
                0 <= m < k ==> exists|i: int|
                    0 <= i < unique_words.len() && (#[trigger] unique_words@[i])@ == #[trigger] ws[m],
            k > 0 ==> {
                &&& max_index < counts.len()
                &&& forall|i: int| 0 <= i < counts.len() ==> #[trigger] counts@[i] <= counts@[max_index as int]
                &&& exists|j: int|
                    #![trigger ws[j]]
                    {
                        &&& 0 <= j < k
                        &&& ws[j] == unique_words@[max_index as int]@
                        &&& occurrences(ws.take(j + 1), ws[j]) == counts@[max_index as int]
                        &&& forall|m: int|
                            0 <= m < j ==> #[trigger] occurrences(ws.take(m + 1), ws[m])
                                < counts@[max_index as int]
                    }
            },
        decreases words.len() - k,
    {
        let ghost p = ws.take(k as int);
        let ghost wk = ws[k as int];
        let ghost old_unique = unique_words@;
        let ghost old_counts = counts@;
        let ghost old_max = max_index;
        assert(wk == words@[k as int]@);
        proof {
            assert forall|x: Seq<char>|
                occurrences(ws.take(k + 1), x) == occurrences(p, x) + if wk == x {
                    1nat
                } else {
                    0nat
                } by {
                lemma_occurrences_take_succ(ws, k as int, x);
            }
        }
        match position_of(&unique_words, &words[k]) {
            Some(i) => {
                proof {
                    lemma_occurrences_le_len(p, wk);
                }
                let c = counts[i] + 1;
                counts.set(i, c);
                let ghost reached_top = i == max_index || counts@[i as int] > counts@[max_index as int];
                if counts[i] > counts[max_index] {
                    max_index = i;
                }
                proof {
                    if reached_top {
                        assert forall|m: int| 0 <= m < k implies #[trigger] occurrences(
                            ws.take(m + 1),
                            ws[m],
                        ) < counts@[max_index as int] by {
                            let iw = choose|iw: int|
                                0 <= iw < old_unique.len() && (#[trigger] old_unique[iw])@ == ws[m];
                            assert(p.take(m + 1) =~= ws.take(m + 1));
                            lemma_occurrences_prefix(p, m + 1, ws[m]);
                            assert(old_counts[iw] <= old_counts[old_max as int]);
                        }
                        assert(ws.take(k + 1).take(k + 1) =~= ws.take(k + 1));
                        assert(ws[k as int] == unique_words@[max_index as int]@);
                    } else {
                        if k > 0 {
                            let j = choose|j: int|
                                #![trigger ws[j]]
                                {
                                    &&& 0 <= j < k
                                    &&& ws[j] == old_unique[old_max as int]@
                                    &&& occurrences(ws.take(j + 1), ws[j])
                                        == old_counts[old_max as int]
                                    &&& forall|m: int|
                                        0 <= m < j ==> #[trigger] occurrences(
                                            ws.take(m + 1),
                                            ws[m],
                                        ) < old_counts[old_max as int]
                                };
                            assert(ws[j] == unique_words@[max_index as int]@ && occurrences(
                                ws.take(j + 1),
                                ws[j],
                            ) == counts@[max_index as int]);
                        }
                    }
                }
                proof {
                    assert forall|m: int| 0 <= m < k + 1 implies exists|i2: int|
                        0 <= i2 < unique_words.len() && (#[trigger] unique_words@[i2])@
                            == #[trigger] ws[m] by {
                        if m == k {
                            assert(unique_words@[i as int]@ == ws[m]);
                        } else {
                            let i2 = choose|i2: int|
                                0 <= i2 < old_unique.len() && (#[trigger] old_unique[i2])@
                                    == ws[m];
                            assert(unique_words@[i2]@ == ws[m]);
                        }
                    }
                }
            },
            None => {
                unique_words.push(words[k].clone());
                counts.push(1);
                if counts.len() == 1 {
                    max_index = 0;
                    proof {
                        assert(ws.take(k + 1).take(1) =~= ws.take(1));
                        assert(ws[k as int] == ws[0]);
                        lemma_occurrences_take_succ(ws, 0, ws[0]);
                        assert(ws.take(0) =~= Seq::<Seq<char>>::empty());
                    }
                } else {
                    proof {
                        let j = choose|j: int|
                            #![trigger ws[j]]
                            {
                                &&& 0 <= j < k
                                &&& ws[j] == old_unique[old_max as int]@
                                &&& occurrences(ws.take(j + 1), ws[j])
                                    == old_counts[old_max as int]
                                &&& forall|m: int|
                                    0 <= m < j ==> #[trigger] occurrences(ws.take(m + 1), ws[m])
                                        < old_counts[old_max as int]
                            };
                        assert(ws.take(j + 1).drop_last() =~= ws.take(j));
                        assert(ws.take(j + 1).last() == ws[j]);
                        assert(old_counts[old_max as int] >= 1);
                        assert(ws[j] == unique_words@[max_index as int]@ && occurrences(
                            ws.take(j + 1),
                            ws[j],
                        ) == counts@[max_index as int]);
                    }
                }
                proof {
                    assert forall|m: int| 0 <= m < k + 1 implies exists|i2: int|
                        0 <= i2 < unique_words.len() && (#[trigger] unique_words@[i2])@
                            == #[trigger] ws[m] by {
                        if m == k {
                            assert(unique_words@[old_unique.len() as int]@ == ws[m]);
                        } else {
                            let i2 = choose|i2: int|
                                0 <= i2 < old_unique.len() && (#[trigger] old_unique[i2])@
                                    == ws[m];
                            assert(unique_words@[i2]@ == ws[m]);
                        }
                    }
                    assert(occurrences(p, wk) == 0) by {
                        if occurrences(p, wk) > 0 {
                            lemma_occurrence_witness(p, wk);
                            let m = choose|m: int| 0 <= m < p.len() && p[m] == wk;
                            assert(ws[m] == p[m]);
                            let i2 = choose|i2: int|
                                0 <= i2 < old_unique.len() && (#[trigger] old_unique[i2])@
                                    == ws[m];
                        }
                    }
                }
            },
        }
        k = k + 1;
    }
    proof {
        assert(ws.take(k as int) =~= ws);
        let c = counts@[max_index as int];
        assert forall|i: int| 0 <= i < ws.len() implies #[trigger] occurrences(ws, ws[i]) <= c by {
            let i2 = choose|i2: int|
                0 <= i2 < unique_words.len() && (#[trigger] unique_words@[i2])@ == ws[i];
            assert(counts@[i2] <= c);
        }
    }
    (unique_words[max_index].clone(), counts[max_index])
}

/// The most frequent word is determined: two answers for the same list of
/// words agree on the word and on its count.
pub proof fn lemma_most_frequent_unique<A>(words: Seq<A>, w1: A, c1: nat, w2: A, c2: nat)
    requires
        is_most_frequent(words, w1, c1),
        is_most_frequent(words, w2, c2),
    ensures
        w1 == w2,
        c1 == c2,
{
    let j1 = choose|j: int|
        #![trigger words[j]]
        {
            &&& 0 <= j < words.len()
            &&& words[j] == w1
            &&& occurrences(words.take(j + 1), w1) == c1
            &&& forall|m: int| 0 <= m < j ==> #[trigger] occurrences(words.take(m + 1), words[m]) < c1
        };
    let j2 = choose|j: int|
        #![trigger words[j]]
        {
            &&& 0 <= j < words.len()
            &&& words[j] == w2
            &&& occurrences(words.take(j + 1), w2) == c2
            &&& forall|m: int| 0 <= m < j ==> #[trigger] occurrences(words.take(m + 1), words[m]) < c2
        };
    assert(occurrences(words, words[j1]) <= c2);
    assert(occurrences(words, words[j2]) <= c1);
    assert(c1 == c2);
    if j1 < j2 {
        assert(occurrences(words.take(j1 + 1), words[j1]) < c2);
    } else if j2 < j1 {
        assert(occurrences(words.take(j2 + 1), words[j2]) < c1);
    }
}

/// The top count of a non-empty list is at least one, and the word occurs in it.
pub proof fn lemma_most_frequent_occurs<A>(words: Seq<A>, w: A, c: nat)
    requires
        is_most_frequent(words, w, c),
    ensures
        c >= 1,
        words.contains(w),
{
    let j = choose|j: int|
        #![trigger words[j]]
        {
            &&& 0 <= j < words.len()
            &&& words[j] == w
            &&& occurrences(words.take(j + 1), w) == c
            &&& forall|m: int| 0 <= m < j ==> #[trigger] occurrences(words.take(m + 1), words[m]) < c
        };
    assert(words.take(j + 1).drop_last() =~= words.take(j));
    assert(words.take(j + 1).last() == words[j]);
}

/// A word that occurs somewhere has a position.
pub proof fn lemma_occurrence_witness<A>(s: Seq<A>, x: A)
    requires
        occurrences(s, x) > 0,
    ensures
        exists|m: int| 0 <= m < s.len() && s[m] == x,
    decreases s.len(),
{
    if s.last() != x {
        lemma_occurrence_witness(s.drop_last(), x);
        let m = choose|m: int| 0 <= m < s.drop_last().len() && s.drop_last()[m] == x;
        assert(s[m] == x);
    } else {
        assert(s[s.len() - 1] == x);
    }
}

/// The most frequent word of `text` (words as `str::split_whitespace` finds
/// them) and how many times it occurs; ties go to the word that reached the
/// top count first.
pub fn most_frequent_word(text: &str) -> (r: (String, usize))
    requires
        whitespace_words(text@).len() > 0,
    ensures
        is_most_frequent(whitespace_words(text@), r.0@, r.1 as nat),
{
    let pieces = split_words(text);
    let ghost target = whitespace_words(text@);
    let mut owned: Vec<String> = Vec::new();
    let mut k: usize = 0;
    while k < pieces.len()
        invariant
            k <= pieces.len(),
            target == pieces@.map_values(|w: &str| w@),
            owned.len() == k,
            forall|i: int| 0 <= i < k ==> (#[trigger] owned@[i])@ == target[i],
        decreases pieces.len() - k,
    {
        let s = pieces[k].to_owned();
        owned.push(s);
        k = k + 1;
    }
    assert(string_views(owned@) =~= target);
    most_frequent_in(&owned)
}

/// Like `most_frequent_word`, but answers `None` for a text without words.
pub fn try_most_frequent_word(text: &str) -> (r: Option<(String, usize)>)
    ensures
        match r {
            None => whitespace_words(text@).len() == 0,
            Some(p) => whitespace_words(text@).len() > 0 && is_most_frequent(
                whitespace_words(text@),
                p.0@,
                p.1 as nat,
            ),
        },
{
    let pieces = split_words(text);
    if pieces.len() == 0 {
        None
    } else {
        Some(most_frequent_word(text))
    }
}

/// Occurrences in two lists joined add up, and a one-element list holds its
/// element once and nothing else.
pub proof fn lemma_occurrences_law<A>(a: Seq<A>, b: Seq<A>, x: A, y: A)
    ensures
        occurrences(a + b, x) == occurrences(a, x) + occurrences(b, x),
        occurrences(seq![y], x) == if x == y {
            1nat
        } else {
            0nat
        },
    decreases b.len(),
{
    assert(seq![y].drop_last() =~= Seq::<A>::empty());
    assert(occurrences(Seq::<A>::empty(), x) == 0);
    if b.len() == 0 {
        assert(a + b =~= a);
    } else {
        lemma_occurrences_law(a, b.drop_last(), x, y);
        assert((a + b).drop_last() =~= a + b.drop_last());
    }
}

/// A run of characters free of white space.
pub open spec fn no_white_space(w: Seq<char>) -> bool {
    forall|i: int| 0 <= i < w.len() ==> !is_white_space(#[trigger] w[i])
}

/// Reading keeps complete words non-empty and free of white space, and the
/// run being read free of white space.
pub proof fn lemma_scan_words_clean(s: Seq<char>)
    ensures
        forall|k: int|
            0 <= k < scan_words(s).0.len() ==> (#[trigger] scan_words(s).0[k]).len() > 0
                && no_white_space(scan_words(s).0[k]),
        no_white_space(scan_words(s).1),
    decreases s.len(),
{
    if s.len() > 0 {
        lemma_scan_words_clean(s.drop_last());
    }
}

/// Every word of a text is non-empty and holds no white space; a text
/// without any white space is one word, and an empty text has none.
pub proof fn lemma_whitespace_words_law(text: Seq<char>)
    ensures
        forall|k: int|
            0 <= k < whitespace_words(text).len() ==> (#[trigger] whitespace_words(text)[k]).len()
                > 0 && no_white_space(whitespace_words(text)[k]),
        text.len() > 0 && no_white_space(text) ==> whitespace_words(text) == seq![text],
        text.len() == 0 ==> whitespace_words(text) == Seq::<Seq<char>>::empty(),
{
    lemma_scan_words_clean(text);
    if text.len() > 0 && no_white_space(text) {
        lemma_scan_unbroken(text);
        assert(whitespace_words(text) =~= seq![text]);
    }
}

/// Reading a text without white space completes no word and reads it whole.
pub proof fn lemma_scan_unbroken(s: Seq<char>)
    requires
        no_white_space(s),
    ensures
        scan_words(s).0 == Seq::<Seq<char>>::empty(),
        scan_words(s).1 == s,
    decreases s.len(),
{
    if s.len() > 0 {
        let p = s.drop_last();
        assert(no_white_space(p)) by {
            assert forall|i: int| 0 <= i < p.len() implies !is_white_space(#[trigger] p[i]) by {
                assert(p[i] == s[i]);
            }
        }
        lemma_scan_unbroken(p);
        assert(!is_white_space(s[s.len() - 1]));
        assert(p.push(s.last()) =~= s);
    } else {
        assert(s =~= Seq::<char>::empty());
    }
}

} // verus!
