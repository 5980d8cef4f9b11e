use vstd::prelude::*;
use crate::kinds::TypeKind;
use crate::model::{JsonNode, JsonV, TomlValue, TomlValueV};
use crate::paths::{is_digit_char, digit_val, digits_len, dec_val, lemma_digits_len_is};
use crate::strutil::{push_char, spec_dec, append_dec, str_eq_str};

verus! {

// ---------------------------------------------------------------------------
// The plain values a caller can set, and how their kind is inferred from
// the literal text given on the command line.
// ---------------------------------------------------------------------------

/// A plain replacement value, as inferred from its literal text.
pub enum ConfigValue {
    Null,
    Bool(bool),
    Int(i64),
    Uint(u64),
    FloatLit(String),
    Str(String),
}

/// The mathematical shape of a replacement value.
pub enum ConfigValueV {
    Null,
    Bool(bool),
    Int(int),
    Uint(int),
    FloatLit(Seq<char>),
    Str(Seq<char>),
}

impl View for ConfigValue {
    type V = ConfigValueV;

    open spec fn view(&self) -> ConfigValueV {
        match self {
            ConfigValue::Null => ConfigValueV::Null,
            ConfigValue::Bool(b) => ConfigValueV::Bool(*b),
            ConfigValue::Int(n) => ConfigValueV::Int(*n as int),
            ConfigValue::Uint(n) => ConfigValueV::Uint(*n as int),
            ConfigValue::FloatLit(s) => ConfigValueV::FloatLit(s@),
            ConfigValue::Str(s) => ConfigValueV::Str(s@),
        }
    }
}

impl ConfigValueV {
    /// The inferred kind of a replacement value.
    pub open spec fn kind(self) -> TypeKind {
        match self {
            ConfigValueV::Null => TypeKind::Null,
            ConfigValueV::Bool(_) => TypeKind::Bool,
            ConfigValueV::Int(_) => TypeKind::Int,
            ConfigValueV::Uint(_) => TypeKind::Uint,
            ConfigValueV::FloatLit(_) => TypeKind::Float,
            ConfigValueV::Str(_) => TypeKind::String,
        }
    }

    /// The JSON node a replacement value becomes.
    pub open spec fn as_json(self) -> JsonV {
        match self {
            ConfigValueV::Null => JsonV::Null,
            ConfigValueV::Bool(b) => JsonV::Bool(b),
            ConfigValueV::Int(n) => JsonV::Int(n),
            ConfigValueV::Uint(n) => JsonV::Uint(n),
            ConfigValueV::FloatLit(s) => JsonV::FloatLit(s),
            ConfigValueV::Str(s) => JsonV::Str(s),
        }
    }

    /// The TOML value a replacement value becomes, where one exists: TOML
    /// has no null, and its integers are signed 64-bit.
    pub open spec fn as_toml(self) -> Option<TomlValueV> {
        match self {
            ConfigValueV::Null => None,
            ConfigValueV::Bool(b) => Some(TomlValueV::Bool(b)),
            ConfigValueV::Int(n) => Some(TomlValueV::Int(n)),
            ConfigValueV::Uint(_) => None,
            ConfigValueV::FloatLit(s) => Some(TomlValueV::FloatLit(s)),
            ConfigValueV::Str(s) => Some(TomlValueV::Str(s)),
        }
    }
}

impl ConfigValue {
    /// The inferred kind of the value.
    pub fn kind(&self) -> (r: TypeKind)
        ensures
            r == self@.kind(),
    {
        match self {
            ConfigValue::Null => TypeKind::Null,
            ConfigValue::Bool(_) => TypeKind::Bool,
            ConfigValue::Int(_) => TypeKind::Int,
            ConfigValue::Uint(_) => TypeKind::Uint,
            ConfigValue::FloatLit(_) => TypeKind::Float,
            ConfigValue::Str(_) => TypeKind::String,
        }
    }

    /// The value as a JSON node.
    pub fn to_json_node(self) -> (r: JsonNode)
        ensures
            r@ == self@.as_json(),
    {
        match self {
            ConfigValue::Null => JsonNode::Null,
            ConfigValue::Bool(b) => JsonNode::Bool(b),
            ConfigValue::Int(n) => JsonNode::Int(n),
            ConfigValue::Uint(n) => JsonNode::Uint(n),
            ConfigValue::FloatLit(s) => JsonNode::FloatLit(s),
            ConfigValue::Str(s) => JsonNode::Str(s),
        }
    }

    /// The value as a TOML value, where one exists.
    pub fn to_toml_value(self) -> (r: Option<TomlValue>)
        ensures
            match r {
                Some(v) => self@.as_toml() == Some(v@),
                None => self@.as_toml() is None,
            },
    {
        match self {
            ConfigValue::Null => None,
            ConfigValue::Bool(b) => Some(TomlValue::Bool(b)),
            ConfigValue::Int(n) => Some(TomlValue::Int(n)),
            ConfigValue::Uint(_) => None,
            ConfigValue::FloatLit(s) => Some(TomlValue::FloatLit(s)),
            ConfigValue::Str(s) => Some(TomlValue::Str(s)),
        }
    }
}

// ---------------------------------------------------------------------------
// Literal classification.
// ---------------------------------------------------------------------------

/// An optionally signed run of digits covering the whole text.
pub open spec fn is_int_lit(s: Seq<char>) -> bool {
    if s.len() > 0 && s[0] == '-' {
        s.len() > 1 && digits_len(s.skip(1)) == s.len() - 1
    } else {
        s.len() > 0 && digits_len(s) == s.len()
    }
}

/// The signed value an integer literal denotes.
pub open spec fn int_lit_val(s: Seq<char>) -> int {
    if s.len() > 0 && s[0] == '-' {
        -dec_val(s.skip(1))
    } else {
        dec_val(s)
    }
}

/// A decimal float literal: sign, digits, then a fraction part or an
/// exponent part (or both), covering the whole text.
pub open spec fn is_float_lit(s: Seq<char>) -> bool {
    let body = if s.len() > 0 && s[0] == '-' {
        s.skip(1)
    } else {
        s
    };
    let d1 = digits_len(body);
    d1 > 0 && d1 < body.len() && float_after_int(body.skip(d1))
}

/// What may follow the integer part of a float literal.
pub open spec fn float_after_int(s: Seq<char>) -> bool {
    if s.len() > 0 && s[0] == '.' {
        let d2 = digits_len(s.skip(1));
        d2 > 0 && (1 + d2 == s.len() || float_exponent(s.skip(1 + d2)))
    } else {
        float_exponent(s)
    }
}

/// An exponent part: `e` or `E`, an optional sign, then digits to the end.
pub open spec fn float_exponent(s: Seq<char>) -> bool {
    if s.len() >= 2 && (s[0] == 'e' || s[0] == 'E') {
        let body = if s[1] == '+' || s[1] == '-' {
            s.skip(2)
        } else {
            s.skip(1)
        };
        body.len() > 0 && digits_len(body) == body.len()
    } else {
        false
    }
}

/// The shape a literal is read as: the fixed words, then integers, then
/// floats, and plain text for everything else.
pub open spec fn spec_infer(s: Seq<char>) -> ConfigValueV {
    if s == "true"@ {
        ConfigValueV::Bool(true)
    } else if s == "false"@ {
        ConfigValueV::Bool(false)
    } else if s == "null"@ {
        ConfigValueV::Null
    } else if is_int_lit(s) {
        let v = int_lit_val(s);
        if i64::MIN <= v <= i64::MAX {
            ConfigValueV::Int(v)
        } else if 0 <= v <= u64::MAX {
            ConfigValueV::Uint(v)
        } else {
            ConfigValueV::Str(s)
        }
    } else if is_float_lit(s) {
        ConfigValueV::FloatLit(s)
    } else {
        ConfigValueV::Str(s)
    }
}

/// Scans digits from `from`, accumulating their value in 64 bits.
fn scan_digits_u64(s: &str, from: usize, len: usize) -> (r: (usize, Option<u64>))
    requires
        len == s@.len(),
        from <= len,
    ensures
        from <= r.0 <= len,
        r.0 - from == digits_len(s@.skip(from as int)),
        match r.1 {
            Some(v) => v == dec_val(s@.subrange(from as int, r.0 as int)) && dec_val(
                s@.subrange(from as int, r.0 as int),
            ) <= u64::MAX,
            None => dec_val(s@.subrange(from as int, r.0 as int)) > u64::MAX,
        },
{
    let mut j = from;
    let mut acc: u64 = 0;
    let mut ok = true;
    proof {
        assert(s@.subrange(from as int, from as int) =~= Seq::<char>::empty());
    }
    while j < len
        invariant
            len == s@.len(),
            from <= j <= len,
            forall|i: int| from <= i < j ==> is_digit_char(#[trigger] s@[i]),
            ok ==> acc == dec_val(s@.subrange(from as int, j as int)),
            !ok ==> dec_val(s@.subrange(from as int, j as int)) > u64::MAX,
        decreases len - j,
    {
        let c = s.get_char(j);
        if !(c >= '0' && c <= '9') {
            proof {
                assert forall|i: int| 0 <= i < j - from implies is_digit_char(
                    #[trigger] s@.skip(from as int)[i],
                ) by {
                    assert(s@.skip(from as int)[i] == s@[from + i]);
                }
                assert(s@.skip(from as int)[j - from] == s@[j as int]);
                lemma_digits_len_is(s@.skip(from as int), j - from);
            }
            return (j, if ok {
                Some(acc)
            } else {
                None
            });
        }
        let dv: u64 = (c as u32 - '0' as u32) as u64;
        proof {
            assert(dv == digit_val(c));
            assert(s@.subrange(from as int, j as int + 1).drop_last() =~= s@.subrange(
                from as int,
                j as int,
            ));
            assert(s@.subrange(from as int, j as int + 1).last() == c);
        }
        if ok {
            match acc.checked_mul(10) {
                Some(m) => match m.checked_add(dv) {
                    Some(v) => {
                        acc = v;
                    },
                    None => {
                        ok = false;
                    },
                },
                None => {
                    ok = false;
                },
            }
        } else {
            proof {
                let big = dec_val(s@.subrange(from as int, j as int));
                assert(dec_val(s@.subrange(from as int, j as int + 1)) == big * 10 + dv);
                assert(big * 10 >= big) by (nonlinear_arith)
                    requires
                        big > u64::MAX,
                ;
            }
        }
        j = j + 1;
    }
    proof {
        assert forall|i: int| 0 <= i < j - from implies is_digit_char(
            #[trigger] s@.skip(from as int)[i],
        ) by {
            assert(s@.skip(from as int)[i] == s@[from + i]);
        }
        lemma_digits_len_is(s@.skip(from as int), j - from);
    }
    (j, if ok { Some(acc) } else { None })
}

/// True when the characters from `from` on match a float continuation
/// (fraction and/or exponent reaching the end of the text).
fn check_float_tail(s: &str, from: usize, len: usize) -> (r: bool)
    requires
        len == s@.len(),
        from <= len,
    ensures
        r == float_after_int(s@.skip(from as int)),
{
    let ghost tail = s@.skip(from as int);
    if from < len && s.get_char(from) == '.' {
        proof {
            assert(tail[0] == s@[from as int]);
            assert(tail.skip(1) =~= s@.skip(from as int + 1));
        }
        let (dend, _) = scan_digits_u64(s, from + 1, len);
        if dend == from + 1 {
            return false;
        }
        if dend == len {
            proof {
                let d2 = digits_len(s@.skip(from as int + 1));
                assert(1 + d2 == tail.len());
            }
            return true;
        }
        proof {
            let d2 = digits_len(s@.skip(from as int + 1));
            assert(tail.skip(1 + d2) =~= s@.skip(dend as int));
        }
        check_float_exp(s, dend, len)
    } else {
        proof {
            if from < len {
                assert(tail[0] == s@[from as int]);
            }
        }
        check_float_exp(s, from, len)
    }
}

/// True when the characters from `from` on are an exponent part reaching
/// the end of the text.
fn check_float_exp(s: &str, from: usize, len: usize) -> (r: bool)
    requires
        len == s@.len(),
        from <= len,
    ensures
        r == float_exponent(s@.skip(from as int)),
{
    let ghost tail = s@.skip(from as int);
    if len - from < 2 {
        return false;
    }
    let c0 = s.get_char(from);
    proof {
        assert(tail[0] == s@[from as int]);
        assert(tail[1] == s@[from as int + 1]);
    }
    if !(c0 == 'e' || c0 == 'E') {
        return false;
    }
    let c1 = s.get_char(from + 1);
    let start = if c1 == '+' || c1 == '-' {
        from + 2
    } else {
        from + 1
    };
    proof {
        assert(tail.skip(2) =~= s@.skip(from as int + 2));
        assert(tail.skip(1) =~= s@.skip(from as int + 1));
    }
    if start == len {
        return false;
    }
    let (dend, _) = scan_digits_u64(s, start, len);
    dend == len
}

/// Reads a replacement value from its literal text: `true`, `false` and
/// `null` are themselves; an optionally signed run of digits is an
/// integer (unsigned when it only fits 64 unsigned bits); a decimal float
/// literal keeps its text; anything else is a plain string.
pub fn infer_value(s: &str) -> (r: ConfigValue)
    ensures
        r@ == spec_infer(s@),
{
    let len = s.unicode_len();
    proof {
        reveal_strlit("true");
        reveal_strlit("false");
        reveal_strlit("null");
        assert(s@.skip(0) =~= s@);
    }
    if str_eq_str(s, "true") {
        return ConfigValue::Bool(true);
    }
    if str_eq_str(s, "false") {
        return ConfigValue::Bool(false);
    }
    if str_eq_str(s, "null") {
        return ConfigValue::Null;
    }
    let neg = len > 0 && s.get_char(0) == '-';
    let start: usize = if neg {
        1
    } else {
        0
    };
    proof {
        if neg {
            assert(s@.skip(1) =~= s@.skip(start as int));
        }
    }
    let (dend, mag) = scan_digits_u64(s, start, len);
    if dend > start && dend == len {
        // An integer literal: the whole text after the sign is digits.
        proof {
            assert(s@.subrange(start as int, len as int) =~= s@.skip(start as int));
        }
        match mag {
            Some(m) => {
                if neg {
                    if m <= 9223372036854775807u64 {
                        return ConfigValue::Int(-(m as i64));
                    } else if m == 9223372036854775808u64 {
                        return ConfigValue::Int(i64::MIN);
                    } else {
                        return ConfigValue::Str(s.to_owned());
                    }
                } else {
                    if m <= 9223372036854775807u64 {
                        return ConfigValue::Int(m as i64);
                    } else {
                        return ConfigValue::Uint(m);
                    }
                }
            },
            None => {
                return ConfigValue::Str(s.to_owned());
            },
        }
    }
    let is_float = if dend > start {
        check_float_tail(s, dend, len)
    } else {
        false
    };
    proof {
        if dend > start {
            let body = s@.skip(start as int);
            let d1 = digits_len(body);
            assert(body.skip(d1) =~= s@.skip(dend as int));
        }
    }
    if is_float {
        return ConfigValue::FloatLit(s.to_owned());
    }
    ConfigValue::Str(s.to_owned())
}

// ---------------------------------------------------------------------------
// Scalar display text.
// ---------------------------------------------------------------------------

/// The decimal rendering of a signed integer.
pub open spec fn spec_dec_signed(n: int) -> Seq<char> {
    if n < 0 {
        seq!['-'] + spec_dec(-n)
    } else {
        spec_dec(n)
    }
}

/// Renders a signed 64-bit integer in decimal.
pub fn render_i64(n: i64) -> (r: String)
    ensures
        r@ == spec_dec_signed(n as int),
{
    let mut out = String::new();
    if n < 0 {
        push_char(&mut out, '-');
        let mag: u64 = if n == i64::MIN {
            9223372036854775808u64
        } else {
            (-n) as u64
        };
        append_dec(&mut out, mag);
        proof {
            assert(Seq::<char>::empty().push('-') + spec_dec(mag as int) =~= seq!['-'] + spec_dec(
                -(n as int),
            ));
        }
    } else {
        append_dec(&mut out, n as u64);
        proof {
            assert(Seq::<char>::empty() + spec_dec(n as int) =~= spec_dec(n as int));
        }
    }
    out
}

} // verus!
