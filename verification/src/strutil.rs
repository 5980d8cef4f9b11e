use vstd::prelude::*;

verus! {

/// Relies on std's `String::push`: appends exactly the given character.
/// vstd specifies `String::append` for string slices but not `push`.
#[verifier::external_body]
pub fn push_char(s: &mut String, c: char)
    ensures
        final(s)@ == old(s)@.push(c),
{
    s.push(c);
}

/// The decimal digit `d` as a character, for `0 <= d <= 9`.
pub open spec fn digit_char(d: int) -> char {
    if d == 0 {
        '0'
    } else if d == 1 {
        '1'
    } else if d == 2 {
        '2'
    } else if d == 3 {
        '3'
    } else if d == 4 {
        '4'
    } else if d == 5 {
        '5'
    } else if d == 6 {
        '6'
    } else if d == 7 {
        '7'
    } else if d == 8 {
        '8'
    } else {
        '9'
    }
}

/// The canonical decimal rendering of a non-negative integer: no sign, no
/// leading zeros (except for zero itself).
pub open spec fn spec_dec(n: int) -> Seq<char>
    decreases n,
{
    if n < 10 {
        seq![digit_char(if n < 0 { 0 } else { n })]
    } else {
        spec_dec(n / 10).push(digit_char(n % 10))
    }
}

fn digit_to_char(d: u64) -> (c: char)
    requires
        d <= 9,
    ensures
        c == digit_char(d as int),
{
    match d {
        0 => '0',
        1 => '1',
        2 => '2',
        3 => '3',
        4 => '4',
        5 => '5',
        6 => '6',
        7 => '7',
        8 => '8',
        _ => '9',
    }
}

/// Appends the decimal rendering of `n` to `out`.
pub fn append_dec(out: &mut String, n: u64)
    ensures
        final(out)@ == old(out)@ + spec_dec(n as int),
    decreases n,
{
    if n < 10 {
        let c = digit_to_char(n);
        push_char(out, c);
        assert(old(out)@ + spec_dec(n as int) =~= old(out)@.push(c));
    } else {
        append_dec(out, n / 10);
        let c = digit_to_char(n % 10);
        push_char(out, c);
        assert(old(out)@ + spec_dec(n as int) =~= (old(out)@ + spec_dec(n as int / 10)).push(c));
    }
}

/// The decimal rendering of `n` on its own.
pub fn render_dec(n: u64) -> (r: String)
    ensures
        r@ == spec_dec(n as int),
{
    let mut out = String::new();
    append_dec(&mut out, n);
    assert(Seq::<char>::empty() + spec_dec(n as int) =~= spec_dec(n as int));
    out
}

} // verus!

verus! {

/// Character-wise equality of two string slices.
pub fn str_eq_str(a: &str, b: &str) -> (r: bool)
    ensures
        r == (a@ == b@),
{
    let la = a.unicode_len();
    let lb = b.unicode_len();
    if la != lb {
        return false;
    }
    let mut i: usize = 0;
    while i < la
        invariant
            la == a@.len(),
            lb == b@.len(),
            la == lb,
            i <= la,
            forall|t: int| 0 <= t < i ==> a@[t] == b@[t],
        decreases la - i,
    {
        if a.get_char(i) != b.get_char(i) {
            return false;
        }
        i = i + 1;
    }
    proof {
        assert(a@ =~= b@);
    }
    true
}

} // verus!

verus! {

/// The abstract view of a list of strings.
pub open spec fn strs_view(xs: Seq<String>) -> Seq<Seq<char>> {
    Seq::new(xs.len(), |i: int| xs[i]@)
}

/// The debug-style rendering of a word list: quoted, comma-separated,
/// bracketed, from position `i` on.
pub open spec fn spec_quoted_from(xs: Seq<Seq<char>>, i: int) -> Seq<char>
    decreases xs.len() - i,
{
    if i < 0 || i >= xs.len() {
        Seq::empty()
    } else {
        (if i > 0 {
            ", "@
        } else {
            Seq::empty()
        }) + seq!['"'] + xs[i] + seq!['"'] + spec_quoted_from(xs, i + 1)
    }
}

/// Appends the quoted, comma-separated words from position `i` on.
pub fn append_quoted_from(out: &mut String, xs: &Vec<String>, i: usize)
    requires
        i <= xs@.len(),
    ensures
        final(out)@ == old(out)@ + spec_quoted_from(strs_view(xs@), i as int),
    decreases xs@.len() - i,
{
    if i == xs.len() {
        proof {
            assert(old(out)@ + spec_quoted_from(strs_view(xs@), i as int) =~= old(out)@);
        }
        return ;
    }
    if i > 0 {
        out.append(", ");
    }
    push_char(out, '"');
    out.append(xs[i].as_str());
    push_char(out, '"');
    let ghost mid = out@;
    append_quoted_from(out, xs, i + 1);
    proof {
        assert(strs_view(xs@)[i as int] == xs@[i as int]@);
        assert(old(out)@ + spec_quoted_from(strs_view(xs@), i as int) =~= mid + spec_quoted_from(
            strs_view(xs@),
            i as int + 1,
        ));
    }
}

} // verus!
