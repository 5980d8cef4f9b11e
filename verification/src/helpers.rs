use vstd::prelude::*;

verus! {

// ---------------------------------------------------------------------------
// "Did you mean ...?" suggestions.
// ---------------------------------------------------------------------------

/// Length of the longest common prefix of two texts.
pub open spec fn common_prefix_len(a: Seq<char>, b: Seq<char>) -> int
    decreases a.len(),
{
    if a.len() > 0 && b.len() > 0 && a[0] == b[0] {
        1 + common_prefix_len(a.drop_first(), b.drop_first())
    } else {
        0
    }
}

proof fn lemma_common_prefix_is(a: Seq<char>, b: Seq<char>, n: int)
    requires
        0 <= n <= a.len(),
        n <= b.len(),
        forall|i: int| 0 <= i < n ==> a[i] == b[i],
        n < a.len() && n < b.len() ==> a[n] != b[n],
    ensures
        common_prefix_len(a, b) == n,
    decreases a.len(),
{
    if a.len() > 0 && b.len() > 0 && a[0] == b[0] {
        assert(n > 0 || (n < a.len() && n < b.len() && a[n] != b[n]));
        if n > 0 {
            assert forall|i: int|
                0 <= i < n - 1 implies a.drop_first()[i] == b.drop_first()[i] by {
                assert(a.drop_first()[i] == a[i + 1]);
                assert(b.drop_first()[i] == b[i + 1]);
            }
            if n - 1 < a.drop_first().len() && n - 1 < b.drop_first().len() {
                assert(a.drop_first()[n - 1] == a[n]);
                assert(b.drop_first()[n - 1] == b[n]);
            }
            lemma_common_prefix_is(a.drop_first(), b.drop_first(), n - 1);
        }
    }
}

/// How unlike a candidate is: the length difference, discounted by the
/// common prefix, floored at zero.  Smaller is more alike.
pub open spec fn spec_score(needle: Seq<char>, h: Seq<char>) -> int {
    let ld = if needle.len() >= h.len() {
        needle.len() - h.len()
    } else {
        h.len() - needle.len()
    };
    let cp = common_prefix_len(needle, h);
    if ld >= cp {
        ld - cp
    } else {
        0
    }
}

/// Computes the score of one candidate.
fn score_of(needle: &str, h: &str) -> (r: usize)
    ensures
        r as int == spec_score(needle@, h@),
{
    let ln = needle.unicode_len();
    let lh = h.unicode_len();
    let shorter = if ln < lh {
        ln
    } else {
        lh
    };
    let mut cp: usize = 0;
    while cp < shorter
        invariant
            ln == needle@.len(),
            lh == h@.len(),
            shorter <= ln,
            shorter <= lh,
            cp <= shorter,
            forall|i: int| 0 <= i < cp ==> needle@[i] == h@[i],
        decreases shorter - cp,
    {
        if needle.get_char(cp) != h.get_char(cp) {
            proof {
                lemma_common_prefix_is(needle@, h@, cp as int);
            }
            let ld = if ln >= lh {
                ln - lh
            } else {
                lh - ln
            };
            return if ld >= cp {
                ld - cp
            } else {
                0
            };
        }
        cp = cp + 1;
    }
    proof {
        lemma_common_prefix_is(needle@, h@, shorter as int);
    }
    let ld = if ln >= lh {
        ln - lh
    } else {
        lh - ln
    };
    if ld >= shorter {
        ld - shorter
    } else {
        0
    }
}

/// Picks the closest-looking candidate for `needle`: the first one with
/// the strictly smallest score.  Useful for friendly suggestions in
/// key-not-found messages.
pub fn suggest(needle: &str, hay: &Vec<String>) -> (r: Option<String>)
    ensures
        match r {
            Some(s) => exists|bi: int|
                0 <= bi < hay@.len() && hay@[bi]@ == s@ && (forall|j: int|
                    0 <= j < hay@.len() ==> spec_score(needle@, (#[trigger] hay@[j])@)
                        >= spec_score(needle@, hay@[bi]@)) && (forall|j: int|
                    0 <= j < bi ==> spec_score(needle@, (#[trigger] hay@[j])@) > spec_score(
                        needle@,
                        hay@[bi]@,
                    )),
            None => hay@.len() == 0,
        },
{
    if hay.len() == 0 {
        return None;
    }
    let mut best_idx: usize = 0;
    let mut best_score = score_of(needle, hay[0].as_str());
    let mut j: usize = 1;
    while j < hay.len()
        invariant
            1 <= j <= hay@.len(),
            best_idx < j,
            best_score as int == spec_score(needle@, hay@[best_idx as int]@),
            forall|t: int|
                0 <= t < j ==> spec_score(needle@, (#[trigger] hay@[t])@) >= best_score as int,
            forall|t: int|
                0 <= t < best_idx ==> spec_score(needle@, (#[trigger] hay@[t])@)
                    > best_score as int,
        decreases hay@.len() - j,
    {
        let sc = score_of(needle, hay[j].as_str());
        if sc < best_score {
            best_idx = j;
            best_score = sc;
        }
        j = j + 1;
    }
    Some(hay[best_idx].clone())
}

} // verus!
