//! The template engine: renders strings of the form `text {{ expr }} text`
//! against a rendering context. An expression is a dotted variable path or a
//! quoted literal, optionally passed through a `truncate` filter.

use vstd::prelude::*;
use crate::context::{Context, Value, ValueModel, value_model, model_lookup, dup_value, value_dict_get};
use crate::strings::{push_char, str_to_chars, chars_to_string, str_eq_chars, int_str, i64_string};

verus! {

broadcast use vstd::std_specs::vec::axiom_spec_len;

/// Characters allowed in identifiers.
pub open spec fn is_ident_char(c: char) -> bool {
    ('a' <= c && c <= 'z') || ('A' <= c && c <= 'Z') || ('0' <= c && c <= '9') || c == '_'
}

/// Decimal digit characters.
pub open spec fn is_digit(c: char) -> bool {
    '0' <= c && c <= '9'
}

/// The first index at or after `i` holding a non-space character.
pub open spec fn skip_spaces(s: Seq<char>, i: int) -> int
    decreases s.len() - i,
{
    if i < 0 || i >= s.len() {
        i
    } else if s[i] == ' ' {
        skip_spaces(s, i + 1)
    } else {
        i
    }
}

/// The end of the identifier starting at `i`.
pub open spec fn ident_end(s: Seq<char>, i: int) -> int
    decreases s.len() - i,
{
    if i < 0 || i >= s.len() {
        i
    } else if is_ident_char(s[i]) {
        ident_end(s, i + 1)
    } else {
        i
    }
}

/// The end of the digit run starting at `i`.
pub open spec fn digits_end(s: Seq<char>, i: int) -> int
    decreases s.len() - i,
{
    if i < 0 || i >= s.len() {
        i
    } else if is_digit(s[i]) {
        digits_end(s, i + 1)
    } else {
        i
    }
}

/// The first index at or after `i` where characters `a b` occur adjacently.
pub open spec fn find_two(s: Seq<char>, i: int, a: char, b: char) -> Option<int>
    decreases s.len() - i,
{
    if i < 0 || i + 2 > s.len() {
        None
    } else if s[i] == a && s[i + 1] == b {
        Some(i)
    } else {
        find_two(s, i + 1, a, b)
    }
}

/// The first index at or after `i` holding character `c`.
pub open spec fn find_char(s: Seq<char>, i: int, c: char) -> Option<int>
    decreases s.len() - i,
{
    if i < 0 || i >= s.len() {
        None
    } else if s[i] == c {
        Some(i)
    } else {
        find_char(s, i + 1, c)
    }
}

/// The value of the digit run `s[i..j]`, most significant digit first.
pub open spec fn digits_val(s: Seq<char>, i: int, j: int) -> nat
    decreases j - i,
{
    if i >= j {
        0
    } else {
        digits_val(s, i, j - 1) * 10 + (if s[j - 1] as int >= 48 {
            (s[j - 1] as int - 48) as nat
        } else {
            0
        })
    }
}

/// Ten to the `k`.
pub open spec fn pow10(k: nat) -> nat
    decreases k,
{
    if k == 0 {
        1
    } else {
        10 * pow10((k - 1) as nat)
    }
}

/// A digit run's value is below ten to its width.
pub proof fn lemma_digits_val_bound(s: Seq<char>, i: int, j: int)
    requires
        forall|k: int| i <= k < j ==> is_digit(s[k]),
    ensures
        digits_val(s, i, j) < pow10(if j >= i { (j - i) as nat } else { 0 }),
    decreases j - i,
{
    if i < j {
        lemma_digits_val_bound(s, i, j - 1);
    }
}

/// The displayed form of a scalar value; lists and maps have none.
pub open spec fn scalar_str(vm: ValueModel) -> Option<Seq<char>> {
    match vm {
        ValueModel::Str(t) => Some(t),
        ValueModel::Int(n) => Some(int_str(n)),
        ValueModel::Bool(b) => Some(
            if b {
                seq!['t', 'r', 'u', 'e']
            } else {
                seq!['f', 'a', 'l', 's', 'e']
            },
        ),
        _ => None,
    }
}

/// Follows `.segment` components from `i` on, descending into map values.
pub open spec fn eval_path_rest(s: Seq<char>, i: int, vm: ValueModel) -> Option<(ValueModel, int)>
    decreases s.len() - i,
{
    if 0 <= i && i < s.len() && s[i] == '.' {
        let e2 = ident_end(s, i + 1);
        if e2 == i + 1 || !(i + 1 <= e2 && e2 <= s.len()) {
            None
        } else {
            match vm {
                ValueModel::Dict(m) => match model_lookup(m, s.subrange(i + 1, e2)) {
                    Some(inner) => eval_path_rest(s, e2, inner),
                    None => None,
                },
                _ => None,
            }
        }
    } else {
        Some((vm, i))
    }
}

/// The name of the truncation filter.
pub open spec fn truncate_name() -> Seq<char> {
    seq!['t', 'r', 'u', 'n', 'c', 'a', 't', 'e']
}

/// The name of the filter's length argument.
pub open spec fn length_name() -> Seq<char> {
    seq!['l', 'e', 'n', 'g', 't', 'h']
}

/// The name of the filter's end argument.
pub open spec fn end_name() -> Seq<char> {
    seq!['e', 'n', 'd']
}

/// Truncates `t` to `n` characters, appending `endlit` when it was longer.
pub open spec fn truncate_str(t: Seq<char>, n: nat, endlit: Seq<char>) -> Seq<char> {
    if t.len() <= n {
        t
    } else {
        t.subrange(0, n as int) + endlit
    }
}

/// The result of the filter chain `| truncate(length=N, end='..')` applied to
/// `vm`, starting at `i` (just past the `|`); `None` on any malformed input.
pub open spec fn eval_filter(e: Seq<char>, i: int, vm: ValueModel) -> Option<Seq<char>> {
    let i3 = skip_spaces(e, i);
    let e1 = ident_end(e, i3);
    if !(0 <= i3 && i3 < e1 && e1 <= e.len()) {
        None
    } else if e.subrange(i3, e1) != truncate_name() {
        None
    } else if !(e1 < e.len() && e[e1] == '(') {
        None
    } else {
        let a0 = e1 + 1;
        let a1 = ident_end(e, a0);
        if !(a0 < a1 && a1 <= e.len()) || e.subrange(a0, a1) != length_name() {
            None
        } else if !(a1 < e.len() && e[a1] == '=') {
            None
        } else {
            let d0 = a1 + 1;
            let d1 = digits_end(e, d0);
            if !(d0 < d1 && d1 <= e.len()) || d1 - d0 > 18 {
                None
            } else {
                let n = digits_val(e, d0, d1);
                if !(d1 < e.len() && e[d1] == ',') {
                    None
                } else {
                    let b0 = skip_spaces(e, d1 + 1);
                    let b1 = ident_end(e, b0);
                    if !(0 <= b0 && b0 < b1 && b1 <= e.len()) || e.subrange(b0, b1) != end_name() {
                        None
                    } else if !(b1 + 1 < e.len() && e[b1] == '=' && e[b1 + 1] == '\'') {
                        None
                    } else {
                        match find_char(e, b1 + 2, '\'') {
                            None => None,
                            Some(q) => {
                                if !(b1 + 2 <= q && q < e.len()) {
                                    None
                                } else {
                                    let endlit = e.subrange(b1 + 2, q);
                                    if !(q + 1 < e.len() && e[q + 1] == ')') {
                                        None
                                    } else if skip_spaces(e, q + 2) != e.len() {
                                        None
                                    } else {
                                        match vm {
                                            ValueModel::Str(t) => Some(truncate_str(t, n, endlit)),
                                            _ => None,
                                        }
                                    }
                                }
                            },
                        }
                    }
                }
            }
        }
    }
}

/// The displayed value once the base expression has been read: either the
/// expression ends, or a filter follows.
pub open spec fn finish_expr(e: Seq<char>, i1: int, vm: ValueModel) -> Option<Seq<char>> {
    let i2 = skip_spaces(e, i1);
    if !(0 <= i2 && i2 <= e.len()) {
        None
    } else if i2 == e.len() {
        scalar_str(vm)
    } else if e[i2] == '|' {
        eval_filter(e, i2 + 1, vm)
    } else {
        None
    }
}

/// The displayed result of the expression `e` under context `ctx`; `None`
/// when the expression is malformed, a variable is unbound, a path descends
/// into a non-map, or a list or map value is displayed.
pub open spec fn eval_expr(e: Seq<char>, ctx: Seq<(Seq<char>, ValueModel)>) -> Option<Seq<char>> {
    let i0 = skip_spaces(e, 0);
    if !(0 <= i0 && i0 <= e.len()) {
        None
    } else if i0 < e.len() && e[i0] == '\'' {
        match find_char(e, i0 + 1, '\'') {
            None => None,
            Some(q) => {
                if i0 + 1 <= q && q < e.len() {
                    finish_expr(e, q + 1, ValueModel::Str(e.subrange(i0 + 1, q)))
                } else {
                    None
                }
            },
        }
    } else if i0 < e.len() && is_ident_char(e[i0]) {
        let e1 = ident_end(e, i0);
        if !(i0 < e1 && e1 <= e.len()) {
            None
        } else {
            match model_lookup(ctx, e.subrange(i0, e1)) {
                None => None,
                Some(vm0) => match eval_path_rest(e, e1, vm0) {
                    None => None,
                    Some((vm, i1)) => {
                        if 0 <= i1 && i1 <= e.len() {
                            finish_expr(e, i1, vm)
                        } else {
                            None
                        }
                    },
                },
            }
        }
    } else {
        None
    }
}

/// The rendering of template `s` from index `from` on: literal text is kept,
/// each `{{ expr }}` is replaced by its displayed value. `None` when an
/// expression is left unclosed or fails to evaluate.
pub open spec fn spec_render(s: Seq<char>, ctx: Seq<(Seq<char>, ValueModel)>, from: int) -> Option<
    Seq<char>,
>
    decreases s.len() - from,
{
    if !(0 <= from && from <= s.len()) {
        None
    } else {
        match find_two(s, from, '{', '{') {
            None => Some(s.subrange(from, s.len() as int)),
            Some(i) => {
                if !(from <= i && i + 2 <= s.len()) {
                    None
                } else {
                    match find_two(s, i + 2, '}', '}') {
                        None => None,
                        Some(j) => {
                            if !(i + 2 <= j && j + 2 <= s.len()) {
                                None
                            } else {
                                match eval_expr(s.subrange(i + 2, j), ctx) {
                                    None => None,
                                    Some(val) => match spec_render(s, ctx, j + 2) {
                                        None => None,
                                        Some(rest) => Some(s.subrange(from, i) + val + rest),
                                    },
                                }
                            }
                        },
                    }
                }
            },
        }
    }
}

/// The rendering of a whole template string.
pub open spec fn template_output(tmpl: Seq<char>, ctx: Seq<(Seq<char>, ValueModel)>) -> Option<
    Seq<char>,
> {
    spec_render(tmpl, ctx, 0)
}

/// A template without an opening expression marker renders to itself.
pub proof fn lemma_render_no_marker(tmpl: Seq<char>, ctx: Seq<(Seq<char>, ValueModel)>)
    requires
        find_two(tmpl, 0, '{', '{') is None,
    ensures
        template_output(tmpl, ctx) == Some(tmpl),
{
    assert(tmpl.subrange(0, tmpl.len() as int) =~= tmpl);
}

/// The characters `v[a..b]`, as a fresh vector.
pub fn copy_range(v: &Vec<char>, a: usize, b: usize) -> (r: Vec<char>)
    requires
        a <= b <= v@.len(),
    ensures
        r@ == v@.subrange(a as int, b as int),
{
    let mut r: Vec<char> = Vec::new();
    for k in a..b
        invariant
            a <= k <= b <= v@.len(),
            r@ =~= v@.subrange(a as int, k as int),
    {
        r.push(v[k]);
        proof {
            assert(r@ =~= v@.subrange(a as int, k + 1 as int));
        }
    }
    proof {
        assert(r@ =~= v@.subrange(a as int, b as int));
    }
    r
}

/// Executable counterpart of `skip_spaces`.
pub fn exec_skip_spaces(v: &Vec<char>, i: usize) -> (r: usize)
    requires
        i <= v@.len(),
    ensures
        r == skip_spaces(v@, i as int),
        i <= r <= v@.len(),
{
    let mut k = i;
    while k < v.len() && v[k] == ' '
        invariant
            i <= k <= v@.len(),
            skip_spaces(v@, i as int) == skip_spaces(v@, k as int),
        decreases v@.len() - k,
    {
        k = k + 1;
    }
    k
}

/// Executable counterpart of `ident_end`.
pub fn exec_ident_end(v: &Vec<char>, i: usize) -> (r: usize)
    requires
        i <= v@.len(),
    ensures
        r == ident_end(v@, i as int),
        i <= r <= v@.len(),
{
    let mut k = i;
    while k < v.len() && (('a' <= v[k] && v[k] <= 'z') || ('A' <= v[k] && v[k] <= 'Z') || ('0'
        <= v[k] && v[k] <= '9') || v[k] == '_')
        invariant
            i <= k <= v@.len(),
            ident_end(v@, i as int) == ident_end(v@, k as int),
        decreases v@.len() - k,
    {
        k = k + 1;
    }
    k
}

/// Executable counterpart of `digits_end`.
pub fn exec_digits_end(v: &Vec<char>, i: usize) -> (r: usize)
    requires
        i <= v@.len(),
    ensures
        r == digits_end(v@, i as int),
        i <= r <= v@.len(),
{
    let mut k = i;
    while k < v.len() && '0' <= v[k] && v[k] <= '9'
        invariant
            i <= k <= v@.len(),
            digits_end(v@, i as int) == digits_end(v@, k as int),
        decreases v@.len() - k,
    {
        k = k + 1;
    }
    k
}

/// Executable counterpart of `find_two`.
pub fn exec_find_two(v: &Vec<char>, i: usize, a: char, b: char) -> (r: Option<usize>)
    requires
        i <= v@.len(),
    ensures
        match r {
            Some(j) => find_two(v@, i as int, a, b) == Some(j as int) && i <= j && j + 2
                <= v@.len(),
            None => find_two(v@, i as int, a, b) is None,
        },
{
    if v.len() < 2 {
        return None;
    }
    let mut k = i;
    while k <= v.len() - 2
        invariant
            i <= k,
            v@.len() >= 2,
            k <= v@.len(),
            find_two(v@, i as int, a, b) == find_two(v@, k as int, a, b),
        decreases v@.len() - k,
    {
        if v[k] == a && v[k + 1] == b {
            return Some(k);
        }
        k = k + 1;
    }
    None
}

/// Executable counterpart of `find_char`.
pub fn exec_find_char(v: &Vec<char>, i: usize, c: char) -> (r: Option<usize>)
    requires
        i <= v@.len(),
    ensures
        match r {
            Some(j) => find_char(v@, i as int, c) == Some(j as int) && i <= j && j < v@.len(),
            None => find_char(v@, i as int, c) is None,
        },
{
    let mut k = i;
    while k < v.len()
        invariant
            i <= k <= v@.len(),
            find_char(v@, i as int, c) == find_char(v@, k as int, c),
        decreases v@.len() - k,
    {
        if v[k] == c {
            return Some(k);
        }
        k = k + 1;
    }
    None
}

/// The displayed form of a scalar value.
pub fn value_display(v: &Value) -> (r: Option<String>)
    ensures
        match r {
            Some(out) => scalar_str(value_model(v)) == Some(out@),
            None => scalar_str(value_model(v)) is None,
        },
{
    match v {
        Value::Str(s) => Some(s.clone()),
        Value::Int(i) => Some(i64_string(*i)),
        Value::Bool(b) => {
            proof {
                reveal_strlit("true");
                reveal_strlit("false");
                assert("true"@ =~= seq!['t', 'r', 'u', 'e']);
                assert("false"@ =~= seq!['f', 'a', 'l', 's', 'e']);
            }
            if *b {
                Some("true".to_owned())
            } else {
                Some("false".to_owned())
            }
        },
        Value::List(_) => None,
        Value::Dict(_) => None,
    }
}

/// Executable counterpart of `eval_path_rest`.
pub fn exec_path_rest<'a>(e: &Vec<char>, i: usize, cur: &'a Value) -> (r: Option<(&'a Value, usize)>)
    requires
        i <= e@.len(),
    ensures
        match r {
            Some(p) => eval_path_rest(e@, i as int, value_model(cur)) == Some(
                (value_model(p.0), p.1 as int),
            ) && p.1 <= e@.len(),
            None => eval_path_rest(e@, i as int, value_model(cur)) is None,
        },
    decreases e@.len() - i,
{
    if i < e.len() && e[i] == '.' {
        let e2 = exec_ident_end(e, i + 1);
        if e2 == i + 1 {
            None
        } else {
            let seg = chars_to_string(&copy_range(e, i + 1, e2));
            match value_dict_get(cur, seg.as_str()) {
                Some(inner) => exec_path_rest(e, e2, inner),
                None => None,
            }
        }
    } else {
        Some((cur, i))
    }
}

/// Executable counterpart of `eval_filter`.
pub fn exec_filter(e: &Vec<char>, i: usize, v: &Value) -> (r: Option<String>)
    requires
        i <= e@.len(),
    ensures
        match r {
            Some(out) => eval_filter(e@, i as int, value_model(v)) == Some(out@),
            None => eval_filter(e@, i as int, value_model(v)) is None,
        },
{
    let i3 = exec_skip_spaces(e, i);
    let e1 = exec_ident_end(e, i3);
    if i3 == e1 {
        return None;
    }
    let fname = copy_range(e, i3, e1);
    proof {
        reveal_strlit("truncate");
        assert("truncate"@ =~= truncate_name());
    }
    if !str_eq_chars("truncate", &fname) {
        return None;
    }
    if !(e1 < e.len() && e[e1] == '(') {
        return None;
    }
    let a0 = e1 + 1;
    let a1 = exec_ident_end(e, a0);
    if a0 == a1 {
        return None;
    }
    let aname = copy_range(e, a0, a1);
    proof {
        reveal_strlit("length");
        assert("length"@ =~= length_name());
    }
    if !str_eq_chars("length", &aname) {
        return None;
    }
    if !(a1 < e.len() && e[a1] == '=') {
        return None;
    }
    let d0 = a1 + 1;
    let d1 = exec_digits_end(e, d0);
    if !(d0 < d1) || d1 - d0 > 18 {
        return None;
    }
    let n = exec_digits_val(e, d0, d1);
    if !(d1 < e.len() && e[d1] == ',') {
        return None;
    }
    let b0 = exec_skip_spaces(e, d1 + 1);
    let b1 = exec_ident_end(e, b0);
    if b0 == b1 {
        return None;
    }
    let bname = copy_range(e, b0, b1);
    proof {
        reveal_strlit("end");
        assert("end"@ =~= end_name());
    }
    if !str_eq_chars("end", &bname) {
        return None;
    }
    if !(b1 < e.len() && e[b1] == '=') {
        return None;
    }
    if !(b1 + 1 < e.len() && e[b1 + 1] == '\'') {
        return None;
    }
    match exec_find_char(e, b1 + 2, '\'') {
        None => None,
        Some(q) => {
            if !(q + 1 < e.len() && e[q + 1] == ')') {
                return None;
            }
            if exec_skip_spaces(e, q + 2) != e.len() {
                return None;
            }
            match v {
                Value::Str(t) => {
                    let tchars = str_to_chars(t.as_str());
                    let endlit = copy_range(e, b1 + 2, q);
                    if tchars.len() as u64 <= n {
                        Some(t.clone())
                    } else {
                        let mut outv = copy_range(&tchars, 0, n_as_usize(n, tchars.len()));
                        let mut out = chars_to_string(&outv);
                        let ends = chars_to_string(&endlit);
                        out.append(ends.as_str());
                        Some(out)
                    }
                },
                _ => None,
            }
        },
    }
}

/// `n` as a `usize`, given that it is below the bound `len`.
fn n_as_usize(n: u64, len: usize) -> (r: usize)
    requires
        n < len,
    ensures
        r == n,
{
    n as usize
}

/// The value of the digit run `e[d0..d1]`.
pub fn exec_digits_val(e: &Vec<char>, d0: usize, d1: usize) -> (r: u64)
    requires
        d0 < d1 <= e@.len(),
        d1 - d0 <= 18,
        digits_end(e@, d0 as int) == d1,
    ensures
        r == digits_val(e@, d0 as int, d1 as int),
{
    proof {
        lemma_digits_run(e@, d0 as int, d1 as int);
        lemma_pow10_18();
    }
    let mut acc: u64 = 0;
    let mut k = d0;
    while k < d1
        invariant
            d0 <= k <= d1 <= e@.len(),
            d1 - d0 <= 18,
            forall|m: int| d0 <= m < d1 ==> is_digit(e@[m]),
            acc == digits_val(e@, d0 as int, k as int),
            acc < pow10((k - d0) as nat),
            pow10(18) == 1000000000000000000,
        decreases d1 - k,
    {
        proof {
            lemma_pow10_mono((k - d0) as nat, 17);
        }
        let d: u64 = (e[k] as u32 - 48) as u64;
        acc = acc * 10 + d;
        k = k + 1;
    }
    acc
}

/// Ten to the eighteen, concretely.
pub proof fn lemma_pow10_18()
    ensures
        pow10(18) == 1000000000000000000,
{
    reveal_with_fuel(pow10, 19);
}

/// `pow10` is monotonic.
pub proof fn lemma_pow10_mono(a: nat, b: nat)
    requires
        a <= b,
    ensures
        pow10(a) <= pow10(b),
    decreases b,
{
    if a < b {
        lemma_pow10_mono(a, (b - 1) as nat);
    }
}

/// Every character before the end of a digit run is a digit.
pub proof fn lemma_digits_run(s: Seq<char>, i: int, j: int)
    requires
        0 <= i <= s.len(),
        digits_end(s, i) == j,
    ensures
        forall|m: int| i <= m < j ==> is_digit(s[m]),
    decreases s.len() - i,
{
    if i < s.len() && is_digit(s[i]) {
        lemma_digits_run(s, i + 1, j);
    }
}

/// Executable counterpart of `finish_expr`.
fn exec_finish_expr(e: &Vec<char>, i1: usize, v: &Value) -> (r: Option<String>)
    requires
        i1 <= e@.len(),
    ensures
        match r {
            Some(out) => finish_expr(e@, i1 as int, value_model(v)) == Some(out@),
            None => finish_expr(e@, i1 as int, value_model(v)) is None,
        },
{
    let i2 = exec_skip_spaces(e, i1);
    if i2 == e.len() {
        value_display(v)
    } else if e[i2] == '|' {
        exec_filter(e, i2 + 1, v)
    } else {
        None
    }
}

/// Executable counterpart of `eval_expr`.
pub fn exec_eval_expr(e: &Vec<char>, ctx: &Context) -> (r: Option<String>)
    ensures
        match r {
            Some(out) => eval_expr(e@, ctx@) == Some(out@),
            None => eval_expr(e@, ctx@) is None,
        },
{
    let i0 = exec_skip_spaces(e, 0);
    if i0 < e.len() && e[i0] == '\'' {
        match exec_find_char(e, i0 + 1, '\'') {
            None => None,
            Some(q) => {
                let lit = Value::Str(chars_to_string(&copy_range(e, i0 + 1, q)));
                exec_finish_expr(e, q + 1, &lit)
            },
        }
    } else if i0 < e.len() && (('a' <= e[i0] && e[i0] <= 'z') || ('A' <= e[i0] && e[i0] <= 'Z') || (
    '0' <= e[i0] && e[i0] <= '9') || e[i0] == '_') {
        let e1 = exec_ident_end(e, i0);
        let seg = chars_to_string(&copy_range(e, i0, e1));
        match ctx.get(seg.as_str()) {
            None => None,
            Some(first) => match exec_path_rest(e, e1, first) {
                None => None,
                Some(p) => exec_finish_expr(e, p.1, p.0),
            },
        }
    } else {
        None
    }
}

/// Executable counterpart of `spec_render`: renders `v[from..]`.
fn render_chars(v: &Vec<char>, from: usize, ctx: &Context) -> (r: Option<String>)
    requires
        from <= v@.len(),
    ensures
        match r {
            Some(out) => spec_render(v@, ctx@, from as int) == Some(out@),
            None => spec_render(v@, ctx@, from as int) is None,
        },
    decreases v@.len() - from,
{
    match exec_find_two(v, from, '{', '{') {
        None => Some(chars_to_string(&copy_range(v, from, v.len()))),
        Some(i) => {
            proof {
                assert(v@.len() == v.len());
            }
            let istart: usize = i + 2;
            match exec_find_two(v, istart, '}', '}') {
                None => None,
                Some(j) => {
                    let expr = copy_range(v, istart, j);
                    match exec_eval_expr(&expr, ctx) {
                        None => None,
                        Some(val) => {
                            let jnext: usize = j + 2;
                            match render_chars(v, jnext, ctx) {
                                None => None,
                                Some(rest) => {
                                    let mut out = chars_to_string(&copy_range(v, from, i));
                                    out.append(val.as_str());
                                    out.append(rest.as_str());
                                    Some(out)
                                },
                            }
                        },
                    }
                },
            }
        },
    }
}

/// The value of a bare path expression; `None` when the expression is
/// malformed, a variable is unbound, or a path descends into a non-map.
pub open spec fn eval_value(e: Seq<char>, ctx: Seq<(Seq<char>, ValueModel)>) -> Option<ValueModel> {
    let i0 = skip_spaces(e, 0);
    if !(0 <= i0 && i0 <= e.len()) {
        None
    } else if i0 < e.len() && is_ident_char(e[i0]) {
        let e1 = ident_end(e, i0);
        if !(i0 < e1 && e1 <= e.len()) {
            None
        } else {
            match model_lookup(ctx, e.subrange(i0, e1)) {
                None => None,
                Some(vm0) => match eval_path_rest(e, e1, vm0) {
                    None => None,
                    Some((vm, i1)) => {
                        if 0 <= i1 && i1 <= e.len() && skip_spaces(e, i1) == e.len() {
                            Some(vm)
                        } else {
                            None
                        }
                    },
                },
            }
        }
    } else {
        None
    }
}

/// Executable counterpart of `eval_value`; the returned value is a deep copy.
pub fn exec_eval_value(e: &Vec<char>, ctx: &Context) -> (r: Option<Value>)
    ensures
        match r {
            Some(v) => eval_value(e@, ctx@) == Some(value_model(&v)),
            None => eval_value(e@, ctx@) is None,
        },
{
    let i0 = exec_skip_spaces(e, 0);
    if i0 < e.len() && (('a' <= e[i0] && e[i0] <= 'z') || ('A' <= e[i0] && e[i0] <= 'Z') || ('0'
        <= e[i0] && e[i0] <= '9') || e[i0] == '_') {
        let e1 = exec_ident_end(e, i0);
        let seg = chars_to_string(&copy_range(e, i0, e1));
        match ctx.get(seg.as_str()) {
            None => None,
            Some(first) => match exec_path_rest(e, e1, first) {
                None => None,
                Some(p) => {
                    if exec_skip_spaces(e, p.1) == e.len() {
                        Some(dup_value(p.0))
                    } else {
                        None
                    }
                },
            },
        }
    } else {
        None
    }
}

/// A comparison operator of a condition expression.
#[derive(Clone, Copy, Debug, PartialEq, Eq, Structural)]
pub enum CmpOp {
    Ge,
    Gt,
    Le,
    Lt,
    EqCmp,
    Ne,
}

/// The comparison operator starting at `i`, and the index just past it.
pub open spec fn parse_cmp_op(e: Seq<char>, i: int) -> Option<(CmpOp, int)> {
    if 0 <= i && i + 2 <= e.len() && e[i] == '>' && e[i + 1] == '=' {
        Some((CmpOp::Ge, i + 2))
    } else if 0 <= i && i + 2 <= e.len() && e[i] == '<' && e[i + 1] == '=' {
        Some((CmpOp::Le, i + 2))
    } else if 0 <= i && i + 2 <= e.len() && e[i] == '=' && e[i + 1] == '=' {
        Some((CmpOp::EqCmp, i + 2))
    } else if 0 <= i && i + 2 <= e.len() && e[i] == '!' && e[i + 1] == '=' {
        Some((CmpOp::Ne, i + 2))
    } else if 0 <= i && i < e.len() && e[i] == '>' {
        Some((CmpOp::Gt, i + 1))
    } else if 0 <= i && i < e.len() && e[i] == '<' {
        Some((CmpOp::Lt, i + 1))
    } else {
        None
    }
}

/// The truth of an integer comparison.
pub open spec fn cmp_int(op: CmpOp, a: int, b: int) -> bool {
    match op {
        CmpOp::Ge => a >= b,
        CmpOp::Gt => a > b,
        CmpOp::Le => a <= b,
        CmpOp::Lt => a < b,
        CmpOp::EqCmp => a == b,
        CmpOp::Ne => a != b,
    }
}

/// The truth of a condition: a bare path naming a boolean value, or an
/// integer path compared against an integer literal. `None` on anything
/// else.
pub open spec fn eval_condition(c: Seq<char>, ctx: Seq<(Seq<char>, ValueModel)>) -> Option<bool> {
    let i0 = skip_spaces(c, 0);
    if !(0 <= i0 && i0 < c.len() && is_ident_char(c[i0])) {
        None
    } else {
        let e1 = ident_end(c, i0);
        if !(i0 < e1 && e1 <= c.len()) {
            None
        } else {
            match model_lookup(ctx, c.subrange(i0, e1)) {
                None => None,
                Some(vm0) => match eval_path_rest(c, e1, vm0) {
                    None => None,
                    Some((vm, i1)) => {
                        if !(0 <= i1 && i1 <= c.len()) {
                            None
                        } else {
                            let i2 = skip_spaces(c, i1);
                            if !(0 <= i2 && i2 <= c.len()) {
                                None
                            } else if i2 == c.len() {
                                match vm {
                                    ValueModel::Bool(b) => Some(b),
                                    _ => None,
                                }
                            } else {
                                match parse_cmp_op(c, i2) {
                                    None => None,
                                    Some((op, i3)) => {
                                        let i4 = skip_spaces(c, i3);
                                        let d1 = digits_end(c, i4);
                                        if !(0 <= i4 && i4 < d1 && d1 <= c.len()) || d1 - i4 > 18
                                            || skip_spaces(c, d1) != c.len() {
                                            None
                                        } else {
                                            let n = digits_val(c, i4, d1);
                                            match vm {
                                                ValueModel::Int(v) => Some(
                                                    cmp_int(op, v, n as int),
                                                ),
                                                _ => None,
                                            }
                                        }
                                    },
                                }
                            }
                        }
                    },
                },
            }
        }
    }
}

/// Executable counterpart of `eval_condition`.
pub fn exec_eval_condition(c: &Vec<char>, ctx: &Context) -> (r: Option<bool>)
    ensures
        r == eval_condition(c@, ctx@),
{
    let i0 = exec_skip_spaces(c, 0);
    if !(i0 < c.len() && (('a' <= c[i0] && c[i0] <= 'z') || ('A' <= c[i0] && c[i0] <= 'Z') || ('0'
        <= c[i0] && c[i0] <= '9') || c[i0] == '_')) {
        return None;
    }
    let e1 = exec_ident_end(c, i0);
    let seg = chars_to_string(&copy_range(c, i0, e1));
    let first = match ctx.get(seg.as_str()) {
        None => {
            return None;
        },
        Some(first) => first,
    };
    let p = match exec_path_rest(c, e1, first) {
        None => {
            return None;
        },
        Some(p) => p,
    };
    let i2 = exec_skip_spaces(c, p.1);
    if i2 == c.len() {
        return match p.0 {
            Value::Bool(b) => Some(*b),
            _ => None,
        };
    }
    let op: CmpOp;
    let i3: usize;
    proof {
        assert(c@.len() == c.len());
    }
    if i2 + 1 < c.len() && c[i2] == '>' && c[i2 + 1] == '=' {
        op = CmpOp::Ge;
        i3 = i2 + 2;
    } else if i2 + 1 < c.len() && c[i2] == '<' && c[i2 + 1] == '=' {
        op = CmpOp::Le;
        i3 = i2 + 2;
    } else if i2 + 1 < c.len() && c[i2] == '=' && c[i2 + 1] == '=' {
        op = CmpOp::EqCmp;
        i3 = i2 + 2;
    } else if i2 + 1 < c.len() && c[i2] == '!' && c[i2 + 1] == '=' {
        op = CmpOp::Ne;
        i3 = i2 + 2;
    } else if c[i2] == '>' {
        op = CmpOp::Gt;
        i3 = i2 + 1;
    } else if c[i2] == '<' {
        op = CmpOp::Lt;
        i3 = i2 + 1;
    } else {
        return None;
    }
    let i4 = exec_skip_spaces(c, i3);
    let d1 = exec_digits_end(c, i4);
    if !(i4 < d1) || d1 - i4 > 18 {
        return None;
    }
    if exec_skip_spaces(c, d1) != c.len() {
        return None;
    }
    let n = exec_digits_val(c, i4, d1);
    proof {
        lemma_digits_run(c@, i4 as int, d1 as int);
        lemma_digits_val_bound(c@, i4 as int, d1 as int);
        lemma_pow10_mono((d1 - i4) as nat, 18);
        lemma_pow10_18();
    }
    match p.0 {
        Value::Int(v) => Some(
            match op {
                CmpOp::Ge => *v >= n as i64,
                CmpOp::Gt => *v > n as i64,
                CmpOp::Le => *v <= n as i64,
                CmpOp::Lt => *v < n as i64,
                CmpOp::EqCmp => *v == n as i64,
                CmpOp::Ne => *v != n as i64,
            },
        ),
        _ => None,
    }
}

/// Renders a whole template against a context. Returns the rendered text, or
/// `None` when the template is malformed or an expression fails to evaluate.
pub fn render_template(template: &str, ctx: &Context) -> (r: Option<String>)
    ensures
        match r {
            Some(out) => template_output(template@, ctx@) == Some(out@),
            None => template_output(template@, ctx@) is None,
        },
{
    let chars = str_to_chars(template);
    render_chars(&chars, 0, ctx)
}

} // verus!
