use vstd::prelude::*;
use crate::strutil::{push_char, append_dec, spec_dec, digit_char};

verus! {

// ---------------------------------------------------------------------------
// The path language.
//
// Grammar:  path := segment ( '.' segment | index )*
//           segment := identifier        (one or more non-separator chars)
//           index   := '[' digits ']'
// The first segment carries no leading dot.  Canonical rendering writes the
// first key bare, every later key as `.key`, and every index as `[i]` with
// no leading zeros.
// ---------------------------------------------------------------------------

/// One step of a path: a key lookup or an array index.
pub enum PathSeg {
    Key(String),
    Index(usize),
}

/// The mathematical shape of a path segment.
pub enum SegV {
    Key(Seq<char>),
    Index(int),
}

impl View for PathSeg {
    type V = SegV;

    open spec fn view(&self) -> SegV {
        match self {
            PathSeg::Key(k) => SegV::Key(k@),
            PathSeg::Index(i) => SegV::Index(*i as int),
        }
    }
}

/// An ordered sequence of path segments identifying a node in a document.
pub struct ValuePath(pub Vec<PathSeg>);

impl View for ValuePath {
    type V = Seq<SegV>;

    open spec fn view(&self) -> Seq<SegV> {
        Seq::new(self.0@.len(), |i: int| self.0@[i]@)
    }
}

impl ValuePath {
    /// The empty path.
    pub fn new() -> (r: ValuePath)
        ensures
            r@ == Seq::<SegV>::empty(),
    {
        let r = ValuePath(Vec::new());
        proof {
            assert(r@ =~= Seq::<SegV>::empty());
        }
        r
    }

    /// Appends a key segment.
    pub fn push_key(&mut self, k: String)
        ensures
            final(self)@ == old(self)@.push(SegV::Key(k@)),
    {
        self.0.push(PathSeg::Key(k));
        proof {
            assert(final(self)@ =~= old(self)@.push(SegV::Key(k@)));
        }
    }

    /// Appends an index segment.
    pub fn push_index(&mut self, i: usize)
        ensures
            final(self)@ == old(self)@.push(SegV::Index(i as int)),
    {
        self.0.push(PathSeg::Index(i));
        proof {
            assert(final(self)@ =~= old(self)@.push(SegV::Index(i as int)));
        }
    }

    /// Removes the last segment, if any.
    pub fn pop(&mut self)
        ensures
            old(self)@.len() == 0 ==> final(self)@ == old(self)@,
            old(self)@.len() > 0 ==> final(self)@ == old(self)@.drop_last(),
    {
        if self.0.len() > 0 {
            let _ = self.0.pop();
            proof {
                assert(final(self)@ =~= old(self)@.drop_last());
            }
        } else {
            proof {
                assert(final(self)@ =~= old(self)@);
            }
        }
    }

    /// True when the path has no segments.
    pub fn is_empty(&self) -> (r: bool)
        ensures
            r == (self@.len() == 0),
    {
        self.0.len() == 0
    }

    /// Number of segments.
    pub fn len(&self) -> (r: usize)
        ensures
            r == self@.len(),
    {
        self.0.len()
    }

    /// A copy of the path with the same segments.
    pub fn duplicate(&self) -> (r: ValuePath)
        ensures
            r@ == self@,
    {
        let mut out = ValuePath::new();
        let mut i: usize = 0;
        while i < self.0.len()
            invariant
                i <= self@.len(),
                out@ == self@.take(i as int),
            decreases self@.len() - i,
        {
            match &self.0[i] {
                PathSeg::Key(k) => {
                    out.push_key(k.clone());
                },
                PathSeg::Index(x) => {
                    out.push_index(*x);
                },
            }
            proof {
                assert(self@.take(i as int).push(self@[i as int]) =~= self@.take(i as int + 1));
            }
            i = i + 1;
        }
        proof {
            assert(self@.take(self@.len() as int) =~= self@);
        }
        out
    }
}

// ---------------------------------------------------------------------------
// Well-formedness: which segment sequences the grammar can produce.
// ---------------------------------------------------------------------------

/// Characters that may appear in a key: everything except the separators.
pub open spec fn is_key_char(c: char) -> bool {
    c != '.' && c != '[' && c != ']'
}

impl SegV {
    /// A key is non-empty and free of separator characters; an index fits
    /// the machine's word.
    pub open spec fn wf(self) -> bool {
        match self {
            SegV::Key(k) => k.len() > 0 && (forall|i: int| 0 <= i < k.len() ==> is_key_char(#[trigger] k[i])),
            SegV::Index(i) => 0 <= i <= usize::MAX,
        }
    }
}

/// A renderable path: non-empty, starting with a key, every segment well
/// formed.  Exactly the sequences that parsing a valid path string yields.
pub open spec fn path_wf(segs: Seq<SegV>) -> bool {
    &&& segs.len() > 0
    &&& segs[0] is Key
    &&& forall|i: int| 0 <= i < segs.len() ==> (#[trigger] segs[i]).wf()
}

// ---------------------------------------------------------------------------
// Rendering.
// ---------------------------------------------------------------------------

/// Canonical text of one segment; `first` selects the bare form of a key.
pub open spec fn spec_render_seg(seg: SegV, first: bool) -> Seq<char> {
    match seg {
        SegV::Key(k) => if first {
            k
        } else {
            seq!['.'] + k
        },
        SegV::Index(i) => seq!['['] + spec_dec(i) + seq![']'],
    }
}

/// Canonical text of every segment after the first.
pub open spec fn spec_render_tail(segs: Seq<SegV>) -> Seq<char>
    decreases segs.len(),
{
    if segs.len() == 0 {
        Seq::empty()
    } else {
        spec_render_seg(segs[0], false) + spec_render_tail(segs.drop_first())
    }
}

/// Canonical text of a whole path.
pub open spec fn spec_render_path(segs: Seq<SegV>) -> Seq<char> {
    if segs.len() == 0 {
        Seq::empty()
    } else {
        spec_render_seg(segs[0], true) + spec_render_tail(segs.drop_first())
    }
}

impl ValuePath {
    /// Renders the path to its canonical text.
    pub fn render(&self) -> (r: String)
        ensures
            r@ == spec_render_path(self@),
    {
        let mut out = String::new();
        let mut i: usize = 0;
        proof {
            lemma_render_path_from(self@);
            assert(Seq::<char>::empty() + spec_render_from(self@, 0) =~= spec_render_path(
                self@,
            ));
        }
        while i < self.0.len()
            invariant
                i <= self.0.len(),
                out@ + spec_render_from(self@, i as int) == spec_render_path(self@),
            decreases self.0.len() - i,
        {
            let ghost pre = out@;
            match &self.0[i] {
                PathSeg::Key(k) => {
                    if i > 0 {
                        push_char(&mut out, '.');
                    }
                    out.append(k.as_str());
                    proof {
                        if i > 0 {
                            assert(pre + (seq!['.'] + k@) =~= pre.push('.') + k@);
                        }
                    }
                },
                PathSeg::Index(idx) => {
                    push_char(&mut out, '[');
                    append_dec(&mut out, *idx as u64);
                    push_char(&mut out, ']');
                    proof {
                        assert(pre + (seq!['['] + spec_dec(*idx as int) + seq![']']) =~= ((
                        pre.push('[') + spec_dec(*idx as int))).push(']'));
                    }
                },
            }
            proof {
                lemma_render_from_step(self@, i as int);
                assert(out@ + spec_render_from(self@, i as int + 1) =~= pre + spec_render_seg(
                    self@[i as int],
                    i == 0,
                ) + spec_render_from(self@, i as int + 1));
            }
            i = i + 1;
        }
        proof {
            assert(out@ + spec_render_from(self@, self@.len() as int) =~= out@);
        }
        out
    }
}

/// Text of the segments from position `i` on, in their in-path form.
pub open spec fn spec_render_from(segs: Seq<SegV>, i: int) -> Seq<char>
    decreases segs.len() - i,
{
    if i < 0 || i >= segs.len() {
        Seq::empty()
    } else {
        spec_render_seg(segs[i], i == 0) + spec_render_from(segs, i + 1)
    }
}

proof fn lemma_render_from_step(segs: Seq<SegV>, i: int)
    requires
        0 <= i < segs.len(),
    ensures
        spec_render_from(segs, i) == spec_render_seg(segs[i], i == 0) + spec_render_from(
            segs,
            i + 1,
        ),
{
}

/// `spec_render_path` and the position-indexed renderer agree.
proof fn lemma_render_from_tail(segs: Seq<SegV>, i: int)
    requires
        1 <= i <= segs.len(),
    ensures
        spec_render_from(segs, i) == spec_render_tail(segs.skip(i)),
    decreases segs.len() - i,
{
    if i >= segs.len() {
        assert(segs.skip(i) =~= Seq::<SegV>::empty());
    } else {
        lemma_render_from_tail(segs, i + 1);
        assert(segs.skip(i).drop_first() =~= segs.skip(i + 1));
        assert(segs.skip(i)[0] == segs[i]);
    }
}

pub proof fn lemma_render_path_from(segs: Seq<SegV>)
    ensures
        spec_render_from(segs, 0) == spec_render_path(segs),
{
    if segs.len() > 0 {
        lemma_render_from_tail(segs, 1);
        assert(segs.drop_first() =~= segs.skip(1));
    }
}

} // verus!

verus! {

// ---------------------------------------------------------------------------
// Parsing.
// ---------------------------------------------------------------------------

/// True for a decimal digit.
pub open spec fn is_digit_char(c: char) -> bool {
    '0' <= c && c <= '9'
}

/// Numeric value of a digit character.
pub open spec fn digit_val(c: char) -> int {
    c as int - '0' as int
}

/// Length of the longest prefix of `s` made of key characters.
pub open spec fn key_len(s: Seq<char>) -> int
    decreases s.len(),
{
    if s.len() > 0 && is_key_char(s[0]) {
        1 + key_len(s.drop_first())
    } else {
        0
    }
}

/// Length of the longest prefix of `s` made of digits.
pub open spec fn digits_len(s: Seq<char>) -> int
    decreases s.len(),
{
    if s.len() > 0 && is_digit_char(s[0]) {
        1 + digits_len(s.drop_first())
    } else {
        0
    }
}

/// Value of a digit string read in base ten.
pub open spec fn dec_val(s: Seq<char>) -> int
    decreases s.len(),
{
    if s.len() == 0 {
        0
    } else {
        dec_val(s.drop_last()) * 10 + digit_val(s.last())
    }
}

/// Parses everything after the first segment: a sequence of `.key` and
/// `[digits]` steps.  `None` is a syntax error.
pub open spec fn spec_parse_tail(s: Seq<char>) -> Option<Seq<SegV>>
    decreases s.len(),
{
    if s.len() == 0 {
        Some(Seq::empty())
    } else if s[0] == '.' {
        let n = key_len(s.skip(1));
        if n < 1 || 1 + n > s.len() {
            None
        } else {
            match spec_parse_tail(s.skip(1 + n)) {
                Some(rest) => Some(seq![SegV::Key(s.subrange(1, 1 + n))] + rest),
                None => None,
            }
        }
    } else if s[0] == '[' {
        let d = digits_len(s.skip(1));
        if d < 1 || 2 + d > s.len() {
            None
        } else if s[1 + d] != ']' {
            None
        } else if dec_val(s.subrange(1, 1 + d)) > usize::MAX {
            None
        } else {
            match spec_parse_tail(s.skip(2 + d)) {
                Some(rest) => Some(seq![SegV::Index(dec_val(s.subrange(1, 1 + d)))] + rest),
                None => None,
            }
        }
    } else {
        None
    }
}

/// Parses a whole path string: a bare first key, then the tail.
pub open spec fn spec_parse_path(s: Seq<char>) -> Option<Seq<SegV>> {
    let n = key_len(s);
    if n < 1 || n > s.len() {
        None
    } else {
        match spec_parse_tail(s.skip(n)) {
            Some(rest) => Some(seq![SegV::Key(s.subrange(0, n))] + rest),
            None => None,
        }
    }
}

/// `key_len` is the length of the whole prefix of key characters: it covers
/// every key character up to the first separator (or the end).
pub proof fn lemma_key_len_char(s: Seq<char>)
    ensures
        0 <= key_len(s) <= s.len(),
        forall|i: int| 0 <= i < key_len(s) ==> is_key_char(#[trigger] s[i]),
        key_len(s) < s.len() ==> !is_key_char(s[key_len(s)]),
    decreases s.len(),
{
    if s.len() > 0 && is_key_char(s[0]) {
        lemma_key_len_char(s.drop_first());
        assert forall|i: int| 0 <= i < key_len(s) implies is_key_char(#[trigger] s[i]) by {
            if i > 0 {
                assert(s.drop_first()[i - 1] == s[i]);
            }
        }
        if key_len(s) < s.len() {
            assert(s.drop_first()[key_len(s) - 1] == s[key_len(s)]);
        }
    }
}

/// The same characterisation for `digits_len`.
pub proof fn lemma_digits_len_char(s: Seq<char>)
    ensures
        0 <= digits_len(s) <= s.len(),
        forall|i: int| 0 <= i < digits_len(s) ==> is_digit_char(#[trigger] s[i]),
        digits_len(s) < s.len() ==> !is_digit_char(s[digits_len(s)]),
    decreases s.len(),
{
    if s.len() > 0 && is_digit_char(s[0]) {
        lemma_digits_len_char(s.drop_first());
        assert forall|i: int| 0 <= i < digits_len(s) implies is_digit_char(#[trigger] s[i]) by {
            if i > 0 {
                assert(s.drop_first()[i - 1] == s[i]);
            }
        }
        if digits_len(s) < s.len() {
            assert(s.drop_first()[digits_len(s) - 1] == s[digits_len(s)]);
        }
    }
}

/// And the converse: a scan that stops at the first non-key character has
/// found exactly `key_len`.
pub proof fn lemma_key_len_is(s: Seq<char>, n: int)
    requires
        0 <= n <= s.len(),
        forall|i: int| 0 <= i < n ==> is_key_char(#[trigger] s[i]),
        n < s.len() ==> !is_key_char(s[n]),
    ensures
        key_len(s) == n,
    decreases s.len(),
{
    if s.len() > 0 && is_key_char(s[0]) {
        assert(n > 0);
        lemma_key_len_is(s.drop_first(), n - 1);
    }
}

pub proof fn lemma_digits_len_is(s: Seq<char>, n: int)
    requires
        0 <= n <= s.len(),
        forall|i: int| 0 <= i < n ==> is_digit_char(#[trigger] s[i]),
        n < s.len() ==> !is_digit_char(s[n]),
    ensures
        digits_len(s) == n,
    decreases s.len(),
{
    if s.len() > 0 && is_digit_char(s[0]) {
        assert(n > 0);
        lemma_digits_len_is(s.drop_first(), n - 1);
    }
}

} // verus!

verus! {

/// Prepends an already-parsed prefix to the outcome of parsing the rest.
pub open spec fn opt_prepend(pre: Seq<SegV>, r: Option<Seq<SegV>>) -> Option<Seq<SegV>> {
    match r {
        Some(rest) => Some(pre + rest),
        None => None,
    }
}

/// Scans key characters from position `from` and returns where they end.
fn scan_key(s: &str, from: usize, len: usize) -> (to: usize)
    requires
        len == s@.len(),
        from <= len,
    ensures
        from <= to <= len,
        to - from == key_len(s@.skip(from as int)),
{
    let mut j = from;
    while j < len
        invariant
            len == s@.len(),
            from <= j <= len,
            forall|i: int| from <= i < j ==> is_key_char(#[trigger] s@[i]),
        decreases len - j,
    {
        let c = s.get_char(j);
        if c == '.' || c == '[' || c == ']' {
            proof {
                assert forall|i: int| 0 <= i < j - from implies is_key_char(
                    #[trigger] s@.skip(from as int)[i],
                ) by {
                    assert(s@.skip(from as int)[i] == s@[from + i]);
                }
                assert(s@.skip(from as int)[j - from] == s@[j as int]);
                lemma_key_len_is(s@.skip(from as int), j - from);
            }
            return j;
        }
        j = j + 1;
    }
    proof {
        assert forall|i: int| 0 <= i < len - from implies is_key_char(
            #[trigger] s@.skip(from as int)[i],
        ) by {
            assert(s@.skip(from as int)[i] == s@[from + i]);
        }
        lemma_key_len_is(s@.skip(from as int), len - from);
    }
    len
}

/// Scans digits from position `from`; returns where they end, and the value
/// they denote when it fits the machine's word.
fn scan_digits(s: &str, from: usize, len: usize) -> (r: (usize, Option<usize>))
    requires
        len == s@.len(),
        from <= len,
    ensures
        from <= r.0 <= len,
        r.0 - from == digits_len(s@.skip(from as int)),
        match r.1 {
            Some(v) => v == dec_val(s@.subrange(from as int, r.0 as int)) && dec_val(
                s@.subrange(from as int, r.0 as int),
            ) <= usize::MAX,
            None => dec_val(s@.subrange(from as int, r.0 as int)) > usize::MAX,
        },
{
    let mut j = from;
    let mut acc: usize = 0;
    let mut ok = true;
    proof {
        assert(s@.subrange(from as int, from as int) =~= Seq::<char>::empty());
    }
    while j < len
        invariant
            len == s@.len(),
            from <= j <= len,
            forall|i: int| from <= i < j ==> is_digit_char(#[trigger] s@[i]),
            ok ==> acc == dec_val(s@.subrange(from as int, j as int)),
            !ok ==> dec_val(s@.subrange(from as int, j as int)) > usize::MAX,
        decreases len - j,
    {
        let c = s.get_char(j);
        if !(c >= '0' && c <= '9') {
            proof {
                assert forall|i: int| 0 <= i < j - from implies is_digit_char(
                    #[trigger] s@.skip(from as int)[i],
                ) by {
                    assert(s@.skip(from as int)[i] == s@[from + i]);
                }
                assert(s@.skip(from as int)[j - from] == s@[j as int]);
                lemma_digits_len_is(s@.skip(from as int), j - from);
            }
            return (j, if ok {
                Some(acc)
            } else {
                None
            });
        }
        let dv: usize = (c as u32 - '0' as u32) as usize;
        proof {
            assert(dv == digit_val(c));
            assert(s@.subrange(from as int, j as int + 1).drop_last() =~= s@.subrange(
                from as int,
                j as int,
            ));
            assert(s@.subrange(from as int, j as int + 1).last() == c);
        }
        if ok {
            match acc.checked_mul(10) {
                Some(m) => match m.checked_add(dv) {
                    Some(v) => {
                        acc = v;
                    },
                    None => {
                        ok = false;
                    },
                },
                None => {
                    ok = false;
                },
            }
        } else {
            proof {
                let big = dec_val(s@.subrange(from as int, j as int));
                assert(dec_val(s@.subrange(from as int, j as int + 1)) == big * 10 + dv);
                assert(big * 10 >= big) by (nonlinear_arith)
                    requires
                        big > usize::MAX,
                ;
            }
        }
        j = j + 1;
    }
    proof {
        assert forall|i: int| 0 <= i < j - from implies is_digit_char(
            #[trigger] s@.skip(from as int)[i],
        ) by {
            assert(s@.skip(from as int)[i] == s@[from + i]);
        }
        lemma_digits_len_is(s@.skip(from as int), j - from);
    }
    (j, if ok { Some(acc) } else { None })
}

/// Parses a path string into its segments.  Succeeds exactly on the strings
/// that the grammar accepts; the result is the parsed `ValuePath`.
pub fn parse_path(s: &str) -> (r: Option<ValuePath>)
    ensures
        match r {
            Some(vp) => spec_parse_path(s@) == Some(vp@),
            None => spec_parse_path(s@) is None,
        },
{
    let len = s.unicode_len();
    let first_end = scan_key(s, 0, len);
    proof {
        assert(s@.skip(0) =~= s@);
    }
    if first_end == 0 {
        return None;
    }
    let first = s.substring_char(0, first_end).to_owned();
    let mut vp = ValuePath::new();
    vp.push_key(first);
    proof {
        assert(vp@ =~= seq![SegV::Key(s@.subrange(0, first_end as int))]);
    }
    let mut pos = first_end;
    while pos < len
        invariant
            len == s@.len(),
            0 < pos <= len,
            spec_parse_path(s@) == opt_prepend(vp@, spec_parse_tail(s@.skip(pos as int))),
        decreases len - pos,
    {
        let ghost pre = vp@;
        let ghost tail = s@.skip(pos as int);
        let c = s.get_char(pos);
        proof {
            assert(tail[0] == s@[pos as int]);
        }
        if c == '.' {
            let end = scan_key(s, pos + 1, len);
            proof {
                assert(tail.skip(1) =~= s@.skip(pos as int + 1));
            }
            if end == pos + 1 {
                return None;
            }
            let k = s.substring_char(pos + 1, end).to_owned();
            vp.push_key(k);
            proof {
                let n = key_len(s@.skip(pos as int + 1));
                assert(tail.subrange(1, 1 + n) =~= s@.subrange(pos as int + 1, end as int));
                assert(tail.skip(1 + n) =~= s@.skip(end as int));
                match spec_parse_tail(s@.skip(end as int)) {
                    Some(rest) => {
                        assert(pre + (seq![SegV::Key(s@.subrange(pos as int + 1, end as int))]
                            + rest) =~= vp@ + rest);
                    },
                    None => {},
                }
            }
            pos = end;
        } else if c == '[' {
            let (dend, val) = scan_digits(s, pos + 1, len);
            proof {
                assert(tail.skip(1) =~= s@.skip(pos as int + 1));
            }
            if dend == pos + 1 {
                return None;
            }
            if dend >= len {
                return None;
            }
            let cb = s.get_char(dend);
            proof {
                let d = digits_len(s@.skip(pos as int + 1));
                assert(tail[1 + d] == s@[dend as int]);
            }
            if cb != ']' {
                return None;
            }
            proof {
                let d = digits_len(s@.skip(pos as int + 1));
                assert(tail.subrange(1, 1 + d) =~= s@.subrange(pos as int + 1, dend as int));
            }
            match val {
                Some(v) => {
                    vp.push_index(v);
                    proof {
                        let d = digits_len(s@.skip(pos as int + 1));
                        assert(tail.skip(2 + d) =~= s@.skip(dend as int + 1));
                        match spec_parse_tail(s@.skip(dend as int + 1)) {
                            Some(rest) => {
                                assert(pre + (seq![SegV::Index(v as int)] + rest) =~= vp@
                                    + rest);
                            },
                            None => {},
                        }
                    }
                    pos = dend + 1;
                },
                None => {
                    return None;
                },
            }
        } else {
            return None;
        }
    }
    proof {
        assert(s@.skip(len as int) =~= Seq::<char>::empty());
        assert(vp@ + Seq::<SegV>::empty() =~= vp@);
    }
    Some(vp)
}

} // verus!

verus! {

// ---------------------------------------------------------------------------
// The round-trip law: rendering is a right inverse of parsing, so
// render-after-parse is a fixed point of the pair.
// ---------------------------------------------------------------------------

/// A digit string denotes a non-negative value.
proof fn lemma_dec_val_nonneg(s: Seq<char>)
    requires
        forall|i: int| 0 <= i < s.len() ==> is_digit_char(#[trigger] s[i]),
    ensures
        dec_val(s) >= 0,
    decreases s.len(),
{
    if s.len() > 0 {
        lemma_dec_val_nonneg(s.drop_last());
        assert(is_digit_char(s.last()));
        assert(dec_val(s.drop_last()) * 10 >= 0) by (nonlinear_arith)
            requires
                dec_val(s.drop_last()) >= 0,
        ;
    }
}

/// The canonical decimal rendering is made of digits and reads back to the
/// number it came from.
proof fn lemma_spec_dec(n: int)
    requires
        n >= 0,
    ensures
        spec_dec(n).len() >= 1,
        forall|i: int| 0 <= i < spec_dec(n).len() ==> is_digit_char(#[trigger] spec_dec(n)[i]),
        dec_val(spec_dec(n)) == n,
    decreases n,
{
    if n < 10 {
        assert(spec_dec(n) == seq![digit_char(n)]);
        assert(is_digit_char(digit_char(n)));
        assert(spec_dec(n).drop_last() =~= Seq::<char>::empty());
        assert(spec_dec(n).last() == digit_char(n));
        assert(dec_val(Seq::<char>::empty()) == 0);
        assert(digit_val(digit_char(n)) == n);
        assert(dec_val(spec_dec(n)) == dec_val(spec_dec(n).drop_last()) * 10 + digit_val(
            spec_dec(n).last(),
        ));
    } else {
        lemma_spec_dec(n / 10);
        let d = digit_char(n % 10);
        assert(is_digit_char(d));
        assert(spec_dec(n) == spec_dec(n / 10).push(d));
        assert(spec_dec(n).drop_last() =~= spec_dec(n / 10));
        assert(spec_dec(n).last() == d);
        assert(digit_val(d) == n % 10);
        assert forall|i: int| 0 <= i < spec_dec(n).len() implies is_digit_char(
            #[trigger] spec_dec(n)[i],
        ) by {
            if i < spec_dec(n / 10).len() {
                assert(spec_dec(n)[i] == spec_dec(n / 10)[i]);
            }
        }
        assert(dec_val(spec_dec(n)) == (n / 10) * 10 + n % 10);
    }
}

/// Scanning stops exactly at the end of a block of key characters.
proof fn lemma_key_len_concat(k: Seq<char>, t: Seq<char>)
    requires
        forall|i: int| 0 <= i < k.len() ==> is_key_char(#[trigger] k[i]),
        t.len() == 0 || !is_key_char(t[0]),
    ensures
        key_len(k + t) == k.len(),
{
    assert forall|i: int| 0 <= i < k.len() implies is_key_char(#[trigger] (k + t)[i]) by {
        assert((k + t)[i] == k[i]);
    }
    if t.len() > 0 {
        assert((k + t)[k.len() as int] == t[0]);
    }
    lemma_key_len_is(k + t, k.len() as int);
}

/// Scanning stops exactly at the end of a block of digits.
proof fn lemma_digits_len_concat(k: Seq<char>, t: Seq<char>)
    requires
        forall|i: int| 0 <= i < k.len() ==> is_digit_char(#[trigger] k[i]),
        t.len() == 0 || !is_digit_char(t[0]),
    ensures
        digits_len(k + t) == k.len(),
{
    assert forall|i: int| 0 <= i < k.len() implies is_digit_char(#[trigger] (k + t)[i]) by {
        assert((k + t)[i] == k[i]);
    }
    if t.len() > 0 {
        assert((k + t)[k.len() as int] == t[0]);
    }
    lemma_digits_len_is(k + t, k.len() as int);
}

/// The rendered tail is empty or opens with a separator.
proof fn lemma_render_tail_head(segs: Seq<SegV>)
    ensures
        spec_render_tail(segs).len() == 0 || spec_render_tail(segs)[0] == '.'
            || spec_render_tail(segs)[0] == '[',
{
    if segs.len() > 0 {
        match segs[0] {
            SegV::Key(k) => {
                assert(spec_render_seg(segs[0], false)[0] == '.');
                assert(spec_render_tail(segs)[0] == '.');
            },
            SegV::Index(i) => {
                assert(spec_render_seg(segs[0], false)[0] == '[');
                assert(spec_render_tail(segs)[0] == '[');
            },
        }
    }
}

/// Parsing the rendered tail of well-formed segments recovers them.
proof fn lemma_parse_render_tail(segs: Seq<SegV>)
    requires
        forall|i: int| 0 <= i < segs.len() ==> (#[trigger] segs[i]).wf(),
    ensures
        spec_parse_tail(spec_render_tail(segs)) == Some(segs),
    decreases segs.len(),
{
    if segs.len() == 0 {
        assert(segs =~= Seq::<SegV>::empty());
    } else {
        let rest = segs.drop_first();
        let t = spec_render_tail(rest);
        lemma_render_tail_head(rest);
        lemma_parse_render_tail(rest);
        match segs[0] {
            SegV::Key(k) => {
                let s = spec_render_tail(segs);
                assert(s == (seq!['.'] + k) + t);
                assert(s[0] == '.');
                assert(s.skip(1) =~= k + t);
                lemma_key_len_concat(k, t);
                let n = k.len() as int;
                assert(key_len(s.skip(1)) == n);
                assert(1 + n <= s.len());
                assert(s.subrange(1, 1 + n) =~= k);
                assert(s.skip(1 + n) =~= t);
                assert(seq![SegV::Key(k)] + rest =~= segs);
            },
            SegV::Index(iv) => {
                let s = spec_render_tail(segs);
                let dec = spec_dec(iv);
                lemma_spec_dec(iv);
                assert(s == (seq!['['] + dec + seq![']']) + t);
                assert(s[0] == '[');
                assert(s.skip(1) =~= dec + (seq![']'] + t));
                assert((seq![']'] + t)[0] == ']');
                lemma_digits_len_concat(dec, seq![']'] + t);
                let d = dec.len() as int;
                assert(digits_len(s.skip(1)) == d);
                assert(2 + d <= s.len());
                assert((dec + (seq![']'] + t))[d] == (seq![']'] + t)[0]);
                assert(s.skip(1)[d] == ']');
                assert(s[1 + d] == s.skip(1)[d]);
                assert(s.subrange(1, 1 + d) =~= dec);
                assert(dec_val(dec) == iv);
                assert(iv <= usize::MAX);
                assert(s.skip(2 + d) =~= t);
                assert(seq![SegV::Index(iv)] + rest =~= segs);
            },
        }
    }
}

/// Parsing the canonical text of a well-formed path recovers the path.
/// With `lemma_parse_path_wf` this makes render-after-parse a fixed point
/// of the pair: rendering canonicalises and then stays put.
pub proof fn lemma_parse_render_roundtrip(segs: Seq<SegV>)
    requires
        path_wf(segs),
    ensures
        spec_parse_path(spec_render_path(segs)) == Some(segs),
{
    let rest = segs.drop_first();
    let t = spec_render_tail(rest);
    let s = spec_render_path(segs);
    lemma_render_tail_head(rest);
    lemma_parse_render_tail(rest);
    match segs[0] {
        SegV::Key(k) => {
            assert(s == k + t);
            lemma_key_len_concat(k, t);
            let n = k.len() as int;
            assert(key_len(s) == n);
            assert(s.subrange(0, n) =~= k);
            assert(s.skip(n) =~= t);
            assert(seq![SegV::Key(k)] + rest =~= segs);
        },
        SegV::Index(_) => {},
    }
}

/// What parsing yields is always a well-formed path.
pub proof fn lemma_parse_tail_wf(s: Seq<char>, segs: Seq<SegV>)
    requires
        spec_parse_tail(s) == Some(segs),
    ensures
        forall|i: int| 0 <= i < segs.len() ==> (#[trigger] segs[i]).wf(),
    decreases s.len(),
{
    if s.len() == 0 {
    } else if s[0] == '.' {
        let n = key_len(s.skip(1));
        lemma_key_len_char(s.skip(1));
        let rest = spec_parse_tail(s.skip(1 + n)).unwrap();
        lemma_parse_tail_wf(s.skip(1 + n), rest);
        let k = s.subrange(1, 1 + n);
        assert forall|i: int| 0 <= i < k.len() implies is_key_char(#[trigger] k[i]) by {
            assert(k[i] == s.skip(1)[i]);
        }
        assert(SegV::Key(k).wf());
        assert forall|i: int| 0 <= i < segs.len() implies (#[trigger] segs[i]).wf() by {
            if i == 0 {
                assert(segs[0] == SegV::Key(k));
            } else {
                assert(segs[i] == rest[i - 1]);
            }
        }
    } else {
        let d = digits_len(s.skip(1));
        lemma_digits_len_char(s.skip(1));
        let dec = s.subrange(1, 1 + d);
        assert forall|i: int| 0 <= i < dec.len() implies is_digit_char(#[trigger] dec[i]) by {
            assert(dec[i] == s.skip(1)[i]);
        }
        lemma_dec_val_nonneg(dec);
        let rest = spec_parse_tail(s.skip(2 + d)).unwrap();
        lemma_parse_tail_wf(s.skip(2 + d), rest);
        assert(SegV::Index(dec_val(dec)).wf());
        assert forall|i: int| 0 <= i < segs.len() implies (#[trigger] segs[i]).wf() by {
            if i == 0 {
                assert(segs[0] == SegV::Index(dec_val(dec)));
            } else {
                assert(segs[i] == rest[i - 1]);
            }
        }
    }
}

/// What parsing yields is always a well-formed path.
pub proof fn lemma_parse_path_wf(s: Seq<char>, segs: Seq<SegV>)
    requires
        spec_parse_path(s) == Some(segs),
    ensures
        path_wf(segs),
{
    let n = key_len(s);
    lemma_key_len_char(s);
    let k = s.subrange(0, n);
    assert forall|i: int| 0 <= i < k.len() implies is_key_char(#[trigger] k[i]) by {
        assert(k[i] == s[i]);
    }
    let rest = spec_parse_tail(s.skip(n)).unwrap();
    lemma_parse_tail_wf(s.skip(n), rest);
    assert(segs[0] == SegV::Key(k));
    assert forall|i: int| 0 <= i < segs.len() implies (#[trigger] segs[i]).wf() by {
        if i == 0 {
            assert(segs[0] == SegV::Key(k));
        } else {
            assert(segs[i] == rest[i - 1]);
        }
    }
}

/// Law: for every syntactically valid path string, rendering what it parses
/// to is a fixed point — parsing the rendered text gives the same path, so
/// rendering it again gives the same text.
pub proof fn lemma_render_parse_fixed_point(s: Seq<char>, segs: Seq<SegV>)
    requires
        spec_parse_path(s) == Some(segs),
    ensures
        spec_parse_path(spec_render_path(segs)) == Some(segs),
{
    lemma_parse_path_wf(s, segs);
    lemma_parse_render_roundtrip(segs);
}

} // verus!
